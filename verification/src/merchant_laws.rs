//! What merchants are owed and paid, figure by figure.
use crate::charge_laws::{accrual, held, paid_back, taken};
use crate::events::{
    Effect, Event, MerchantPausedEvent, MerchantRefundEvent, MerchantUnpausedEvent,
    MerchantWithdrawalEvent, TokenTransfer,
};
use crate::lifecycle_laws::is_registered;
use crate::merchant::{
    balance_of, credited, earnings_of, has_earned, is_paused, merchant_refund_refusal, Merchants,
    payout_refusal, reconciled,
};
use crate::operation::{after, is_refused, Moment, Operation};
use crate::price_laws::accepted_tokens_are_registered;
use crate::statements::checked_total;
use crate::types::{
    Address, BillingChargeKind, Bucket, Error, MerchantConfig, ReconciliationSnapshot,
    TokenEarnings,
};
use crate::vault::VaultState;
use vstd::prelude::*;

verus! {

/// `amount` left one bucket: its balance fell by it, its accruals, every other bucket,
/// pauses and settings are the same.
pub open spec fn leaves(before: Merchants, now: Merchants, bucket: Bucket, amount: int) -> bool {
    &&& now == (Merchants { balances: now.balances, earnings: now.earnings, ..before })
    &&& now.balances == before.balances.insert(bucket, now.balances[bucket])
    &&& now.earnings == before.earnings.insert(bucket, now.earnings[bucket])
    &&& held(now.balances, bucket) == held(before.balances, bucket) - amount
    &&& forall|kind: BillingChargeKind| #[trigger]
        accrual(now.earnings, bucket, kind) == accrual(before.earnings, bucket, kind)
}

/// A merchant's reported balance, earnings and pause are those on record, and none where
/// there is no record.
pub proof fn merchants_are_reported_as_recorded(m: Merchants, bucket: Bucket)
    ensures
        balance_of(m, bucket) == held(m.balances, bucket),
        earnings_of(m, bucket).accruals.interval == accrual(
            m.earnings,
            bucket,
            BillingChargeKind::Interval,
        ),
        earnings_of(m, bucket).accruals.usage == accrual(
            m.earnings,
            bucket,
            BillingChargeKind::Usage,
        ),
        earnings_of(m, bucket).accruals.one_off == accrual(
            m.earnings,
            bucket,
            BillingChargeKind::OneOff,
        ),
        earnings_of(m, bucket).withdrawals == taken(m.earnings, bucket),
        earnings_of(m, bucket).refunds == paid_back(m.earnings, bucket),
        is_paused(m, bucket.holder) <==> m.paused.contains_key(bucket.holder)
            && m.paused[bucket.holder],
        has_earned(m, bucket.holder, bucket.token) <==> m.earnings.contains_key(
            Bucket { holder: bucket.holder, token: bucket.token },
        ),
{
}

/// A credit is refused of a negative amount with `InvalidAmount` and where a figure would
/// leave the machine's numbers with `Overflow`; else it raises the balance and the accruals
/// of its kind by the amount, and nothing else.
pub proof fn credit_raises_balance_and_accruals(
    m: Merchants,
    bucket: Bucket,
    amount: i128,
    kind: BillingChargeKind,
)
    ensures
        ({
            let result = credited(m, bucket, amount, kind);
            if amount < 0 {
                result == Err::<Merchants, Error>(Error::InvalidAmount)
            } else if held(m.balances, bucket) + amount > i128::MAX || accrual(
                m.earnings,
                bucket,
                kind,
            ) + amount > i128::MAX {
                result == Err::<Merchants, Error>(Error::Overflow)
            } else {
                let now = result->Ok_0;
                &&& result is Ok
                &&& now.paused == m.paused
                &&& now.configs == m.configs
                &&& now.balances == m.balances.insert(bucket, now.balances[bucket])
                &&& now.earnings == m.earnings.insert(bucket, now.earnings[bucket])
                &&& held(now.balances, bucket) == held(m.balances, bucket) + amount
                &&& taken(now.earnings, bucket) == taken(m.earnings, bucket)
                &&& paid_back(now.earnings, bucket) == paid_back(m.earnings, bucket)
                &&& forall|other: BillingChargeKind| #[trigger]
                    accrual(now.earnings, bucket, other) == accrual(m.earnings, bucket, other)
                        + if other == kind {
                        amount as int
                    } else {
                        0
                    }
            }
        }),
{
}

/// A merchant's withdrawal is refused in this order: of no amount with `InvalidAmount`, in a
/// token that is not registered with `InvalidInput`, of a merchant without a balance in it
/// with `NotFound`, of more than the balance or than the vault holds with
/// `InsufficientBalance`.
pub proof fn payout_is_checked_in_order(
    s: VaultState,
    merchant: Address,
    token: Address,
    amount: i128,
    custody: i128,
)
    ensures
        ({
            let refusal = payout_refusal(s, merchant, token, amount, custody);
            let bucket = Bucket { holder: merchant, token };
            let balance = held(s.merchants.balances, bucket);
            if amount <= 0 {
                refusal == Some(Error::InvalidAmount)
            } else if !is_registered(s, token) {
                refusal == Some(Error::InvalidInput)
            } else if balance == 0 {
                refusal == Some(Error::NotFound)
            } else if amount > balance || amount > custody {
                refusal == Some(Error::InsufficientBalance)
            } else if taken(s.merchants.earnings, bucket) + amount > i128::MAX {
                refusal == Some(Error::Overflow)
            } else {
                refusal is None
            }
        }),
{
    accepted_tokens_are_registered(s, token);
}

/// A merchant's withdrawal pays the amount in the token to the merchant: it leaves the
/// balance, is counted as withdrawn, and is announced with what remains. Nothing else
/// changes.
pub proof fn payout_debits_the_merchant(
    s: VaultState,
    m: Moment,
    merchant: Address,
    token: Address,
    amount: i128,
    custody: i128,
)
    ensures
        ({
            let t = after(
                s,
                m,
                Operation::WithdrawMerchantFunds { merchant, token, amount, custody },
            );
            let bucket = Bucket { holder: merchant, token };
            if payout_refusal(s, merchant, token, amount, custody) is Some {
                t == s
            } else {
                &&& leaves(s.merchants, t.merchants, bucket, amount as int)
                &&& taken(t.merchants.earnings, bucket) == taken(s.merchants.earnings, bucket)
                    + amount
                &&& paid_back(t.merchants.earnings, bucket) == paid_back(
                    s.merchants.earnings,
                    bucket,
                )
                &&& t.outbox == s.outbox.push(
                    Effect::Publish(
                        Event::MerchantWithdrawal(
                            MerchantWithdrawalEvent {
                                merchant,
                                token,
                                amount,
                                remaining_balance: t.merchants.balances[bucket],
                            },
                        ),
                    ),
                ).push(
                    Effect::Transfer(
                        TokenTransfer { token, from: m.contract, to: merchant, amount },
                    ),
                )
                &&& t == (VaultState { merchants: t.merchants, outbox: t.outbox, ..s })
            }
        }),
{
    reveal(is_refused);
}

/// A merchant's refund is refused of no amount with `InvalidAmount` and of more than the
/// merchant's balance in the token with `InsufficientBalance`.
pub proof fn merchant_refund_is_checked_in_order(
    s: VaultState,
    merchant: Address,
    token: Address,
    amount: i128,
)
    ensures
        ({
            let refusal = merchant_refund_refusal(s, merchant, token, amount);
            let bucket = Bucket { holder: merchant, token };
            if amount <= 0 {
                refusal == Some(Error::InvalidAmount)
            } else if amount > held(s.merchants.balances, bucket) {
                refusal == Some(Error::InsufficientBalance)
            } else if paid_back(s.merchants.earnings, bucket) + amount > i128::MAX {
                refusal == Some(Error::Overflow)
            } else {
                refusal is None
            }
        }),
{
}

/// A merchant's refund pays the amount in the token to the subscriber: it leaves the
/// merchant's balance, is counted as refunded, and is announced. Nothing else changes.
pub proof fn merchant_refund_debits_the_merchant(
    s: VaultState,
    m: Moment,
    merchant: Address,
    subscriber: Address,
    token: Address,
    amount: i128,
)
    ensures
        ({
            let t = after(
                s,
                m,
                Operation::MerchantRefund { merchant, subscriber, token, amount },
            );
            let bucket = Bucket { holder: merchant, token };
            if merchant_refund_refusal(s, merchant, token, amount) is Some {
                t == s
            } else {
                &&& leaves(s.merchants, t.merchants, bucket, amount as int)
                &&& taken(t.merchants.earnings, bucket) == taken(s.merchants.earnings, bucket)
                &&& paid_back(t.merchants.earnings, bucket) == paid_back(
                    s.merchants.earnings,
                    bucket,
                ) + amount
                &&& t.outbox == s.outbox.push(
                    Effect::Publish(
                        Event::MerchantRefund(
                            MerchantRefundEvent { merchant, subscriber, token, amount },
                        ),
                    ),
                ).push(
                    Effect::Transfer(
                        TokenTransfer { token, from: m.contract, to: subscriber, amount },
                    ),
                )
                &&& t == (VaultState { merchants: t.merchants, outbox: t.outbox, ..s })
            }
        }),
{
    reveal(is_refused);
}

/// Pausing a merchant sets the merchant's pause, unpausing lifts it, and either is announced.
/// Where the merchant is so already nothing happens. Nobody else's pause changes, nor anything
/// else.
pub proof fn merchant_pause_is_set_and_lifted(s: VaultState, m: Moment, merchant: Address)
    ensures
        ({
            let was = s.merchants.paused.contains_key(merchant) && s.merchants.paused[merchant];
            let t = after(s, m, Operation::PauseMerchant { merchant });
            if was {
                t == s
            } else {
                &&& t.merchants.paused == s.merchants.paused.insert(merchant, true)
                &&& t.outbox == s.outbox.push(
                    Effect::Publish(
                        Event::MerchantPaused(MerchantPausedEvent { merchant, timestamp: m.now }),
                    ),
                )
                &&& t == (VaultState {
                    merchants: Merchants { paused: t.merchants.paused, ..s.merchants },
                    outbox: t.outbox,
                    ..s
                })
            }
        }),
        ({
            let was = s.merchants.paused.contains_key(merchant) && s.merchants.paused[merchant];
            let t = after(s, m, Operation::UnpauseMerchant { merchant });
            if !was {
                t == s
            } else {
                &&& t.merchants.paused == s.merchants.paused.insert(merchant, false)
                &&& t.outbox == s.outbox.push(
                    Effect::Publish(
                        Event::MerchantUnpaused(
                            MerchantUnpausedEvent { merchant, timestamp: m.now },
                        ),
                    ),
                )
                &&& t == (VaultState {
                    merchants: Merchants { paused: t.merchants.paused, ..s.merchants },
                    outbox: t.outbox,
                    ..s
                })
            }
        }),
{
    reveal(is_refused);
}

/// A merchant's settings are stored as given, unless the address to return to is longer than
/// 256 bytes; nothing else changes.
pub proof fn merchant_settings_are_stored(
    s: VaultState,
    m: Moment,
    merchant: Address,
    config: MerchantConfig<Seq<u8>>,
)
    ensures
        ({
            let t = after(s, m, Operation::SetMerchantConfig { merchant, config });
            if config.redirect_url.len() > 256 {
                t == s
            } else {
                &&& t.merchants.configs == s.merchants.configs.insert(merchant, config)
                &&& t == (VaultState {
                    merchants: Merchants { configs: t.merchants.configs, ..s.merchants },
                    ..s
                })
            }
        }),
{
    reveal(is_refused);
}

/// Where every running figure fits the machine's numbers, a reconciliation shows the sum of
/// the accruals of all kinds, what was withdrawn and refunded, and as the balance what is
/// left of the accruals after both.
pub proof fn reconciliation_adds_up(token: Address, earnings: TokenEarnings)
    ensures
        ({
            let kinds = earnings.accruals;
            let total = kinds.interval + kinds.usage + kinds.one_off;
            let kept = total - earnings.withdrawals;
            let left = kept - earnings.refunds;
            let result = reconciled(token, earnings);
            &&& (i128::MIN <= kinds.interval + kinds.usage <= i128::MAX && i128::MIN <= total
                <= i128::MAX && i128::MIN <= kept <= i128::MAX && i128::MIN <= left <= i128::MAX)
                <==> result is Ok
            &&& result is Err ==> result->Err_0 == Error::Overflow || result->Err_0
                == Error::Underflow
            &&& result is Ok ==> result->Ok_0 == (ReconciliationSnapshot {
                token,
                total_accruals: total as i128,
                total_withdrawals: earnings.withdrawals,
                total_refunds: earnings.refunds,
                computed_balance: left as i128,
            })
        }),
{
    let kinds = earnings.accruals;
    let all = seq![kinds.interval, kinds.usage, kinds.one_off];
    assert(all.drop_last() =~= seq![kinds.interval, kinds.usage]);
    assert(all.drop_last().drop_last() =~= seq![kinds.interval]);
    assert(all.drop_last().drop_last().drop_last() =~= Seq::<i128>::empty());
    reveal_with_fuel(checked_total, 4);
}

} // verus!
