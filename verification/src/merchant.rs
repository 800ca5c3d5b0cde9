//! Merchant payout entrypoints, earnings and pause.
//!
//! A merchant's earnings are kept per token, apart from any subscription. Tokens stay in
//! the vault's custody until the merchant withdraws them or pays them back.
use crate::admin::{get_token, is_accepted, is_token_accepted};
use crate::events::{
    Effect, Event, MerchantPausedEvent, MerchantRefundEvent, MerchantUnpausedEvent,
    MerchantWithdrawalEvent, TokenTransfer,
};
use crate::safe_math::{
    amount_of, safe_add, safe_sub, safe_sub_balance, validate_non_negative,
};
use crate::statements::checked_total;
use crate::tables::{copy_text, lemma_viewed_insert, viewed, Table};
use crate::types::{
    AccruedEarnings, Address, BillingChargeKind, Bucket, Call, Error, MerchantConfig,
    ReconciliationSnapshot, TokenEarnings,
};
use crate::vault::{SubscriptionVault, VaultState};
use vstd::prelude::*;

verus! {

/// What the vault keeps for merchants, as contracts speak of it.
#[verifier::ext_equal]
pub struct Merchants {
    /// Balance that the merchant may withdraw, by merchant and token; 0 where there is none.
    pub balances: Map<Bucket, i128>,
    /// Where the balance comes from and went, by merchant and token.
    pub earnings: Map<Bucket, TokenEarnings>,
    /// Whether a merchant has paused all of its subscriptions; not, where unset.
    pub paused: Map<Address, bool>,
    pub configs: Map<Address, MerchantConfig<Seq<u8>>>,
}

/// What the vault keeps for merchants.
pub struct MerchantLedger {
    pub balances: Table<Bucket, i128>,
    pub earnings: Table<Bucket, TokenEarnings>,
    pub paused: Table<Address, bool>,
    pub configs: Table<Address, MerchantConfig<Vec<u8>>>,
}

impl View for MerchantLedger {
    type V = Merchants;

    open spec fn view(&self) -> Merchants {
        Merchants {
            balances: self.balances@,
            earnings: self.earnings@,
            paused: self.paused@,
            configs: viewed(self.configs@),
        }
    }
}

/// No merchant has earned or set anything.
pub open spec fn no_merchants() -> Merchants {
    Merchants {
        balances: Map::empty(),
        earnings: Map::empty(),
        paused: Map::empty(),
        configs: Map::empty(),
    }
}

/// The balance of a merchant in one token.
pub open spec fn balance_of(m: Merchants, bucket: Bucket) -> i128 {
    match m.balances.get(bucket) {
        Some(balance) => balance,
        None => 0,
    }
}

/// The earnings of a merchant in one token.
pub open spec fn earnings_of(m: Merchants, bucket: Bucket) -> TokenEarnings {
    match m.earnings.get(bucket) {
        Some(earnings) => earnings,
        None => TokenEarnings {
            accruals: AccruedEarnings { interval: 0, usage: 0, one_off: 0 },
            withdrawals: 0,
            refunds: 0,
        },
    }
}

/// Whether a merchant has paused all of its subscriptions.
pub open spec fn is_paused(m: Merchants, merchant: Address) -> bool {
    m.paused.get(merchant) == Some(true)
}

/// What was accrued by charges of one kind.
pub open spec fn accrued_by(accruals: AccruedEarnings, kind: BillingChargeKind) -> i128 {
    match kind {
        BillingChargeKind::Interval => accruals.interval,
        BillingChargeKind::Usage => accruals.usage,
        BillingChargeKind::OneOff => accruals.one_off,
    }
}

/// Accruals with those of one kind replaced.
pub open spec fn with_accrual(
    accruals: AccruedEarnings,
    kind: BillingChargeKind,
    amount: i128,
) -> AccruedEarnings {
    match kind {
        BillingChargeKind::Interval => AccruedEarnings { interval: amount, ..accruals },
        BillingChargeKind::Usage => AccruedEarnings { usage: amount, ..accruals },
        BillingChargeKind::OneOff => AccruedEarnings { one_off: amount, ..accruals },
    }
}

/// The books once a charge of `amount` is credited to `bucket`. A negative amount is
/// refused, and so is one that the balance or the accrued total cannot take.
pub open spec fn credited(
    m: Merchants,
    bucket: Bucket,
    amount: i128,
    kind: BillingChargeKind,
) -> Result<Merchants, Error> {
    let balance = balance_of(m, bucket) + amount;
    let earnings = earnings_of(m, bucket);
    let accrued = accrued_by(earnings.accruals, kind) + amount;
    if amount < 0 {
        Err(Error::InvalidAmount)
    } else if balance > i128::MAX || accrued > i128::MAX {
        Err(Error::Overflow)
    } else {
        Ok(
            Merchants {
                balances: m.balances.insert(bucket, balance as i128),
                earnings: m.earnings.insert(
                    bucket,
                    TokenEarnings {
                        accruals: with_accrual(earnings.accruals, kind, accrued as i128),
                        ..earnings
                    },
                ),
                ..m
            },
        )
    }
}

impl MerchantLedger {
    /// Books without merchants.
    pub fn new() -> (ledger: MerchantLedger)
        ensures
            ledger@ == no_merchants(),
    {
        let ledger = MerchantLedger {
            balances: Table::new(),
            earnings: Table::new(),
            paused: Table::new(),
            configs: Table::new(),
        };
        assert(ledger@ =~= no_merchants());
        ledger
    }

    /// The balance of a merchant in one token.
    pub fn balance(&self, bucket: Bucket) -> (balance: i128)
        ensures
            balance == balance_of(self@, bucket),
    {
        match self.balances.lookup(bucket) {
            Some(balance) => balance,
            None => 0,
        }
    }

    /// The earnings of a merchant in one token.
    pub fn token_earnings(&self, bucket: Bucket) -> (earnings: TokenEarnings)
        ensures
            earnings == earnings_of(self@, bucket),
    {
        match self.earnings.lookup(bucket) {
            Some(earnings) => earnings,
            None => TokenEarnings {
                accruals: AccruedEarnings { interval: 0, usage: 0, one_off: 0 },
                withdrawals: 0,
                refunds: 0,
            },
        }
    }

    /// Whether a merchant has paused all of its subscriptions.
    pub fn paused(&self, merchant: Address) -> (paused: bool)
        ensures
            paused == is_paused(self@, merchant),
    {
        match self.paused.lookup(merchant) {
            Some(paused) => paused,
            None => false,
        }
    }
}

/// Credit merchant balance in one token (used when subscription charges process).
pub fn credit_merchant_balance_for_token(
    ledger: &mut MerchantLedger,
    merchant: &Address,
    token: &Address,
    amount: i128,
    kind: BillingChargeKind,
) -> (result: Result<(), Error>)
    ensures
        match credited(
            old(ledger)@,
            Bucket { holder: *merchant, token: *token },
            amount,
            kind,
        ) {
            Ok(after) => result == Ok::<(), Error>(()) && final(ledger)@ == after,
            Err(e) => result == Err::<(), Error>(e) && final(ledger)@ == old(ledger)@,
        },
{
    let bucket = Bucket { holder: *merchant, token: *token };
    match validate_non_negative(amount) {
        Err(e) => return Err(e),
        Ok(()) => {},
    }
    let balance: i128 = match safe_add(ledger.balance(bucket), amount) {
        Ok(balance) => balance,
        Err(_) => return Err(Error::Overflow),
    };
    let mut earnings = ledger.token_earnings(bucket);
    let before: i128 = match kind {
        BillingChargeKind::Interval => earnings.accruals.interval,
        BillingChargeKind::Usage => earnings.accruals.usage,
        BillingChargeKind::OneOff => earnings.accruals.one_off,
    };
    let accrued: i128 = match safe_add(before, amount) {
        Ok(accrued) => accrued,
        Err(_) => return Err(Error::Overflow),
    };
    match kind {
        BillingChargeKind::Interval => {
            earnings.accruals.interval = accrued;
        },
        BillingChargeKind::Usage => {
            earnings.accruals.usage = accrued;
        },
        BillingChargeKind::OneOff => {
            earnings.accruals.one_off = accrued;
        },
    }
    ledger.balances.set(bucket, balance);
    ledger.earnings.set(bucket, earnings);
    Ok(())
}

/// Credit merchant balance in the default token (used when subscription charges process).
pub fn credit_merchant_balance(
    vault: &mut SubscriptionVault,
    merchant: &Address,
    amount: i128,
    kind: BillingChargeKind,
) -> (result: Result<(), Error>)
    ensures
        match old(vault)@.config.token {
            None => result == Err::<(), Error>(Error::NotInitialized) && final(vault)@
                == old(vault)@,
            Some(token) => match credited(
                old(vault)@.merchants,
                Bucket { holder: *merchant, token },
                amount,
                kind,
            ) {
                Err(e) => result == Err::<(), Error>(e) && final(vault)@ == old(vault)@,
                Ok(merchants) => result == Ok::<(), Error>(()) && final(vault)@ == (VaultState {
                    merchants,
                    ..old(vault)@
                }),
            },
        },
{
    let token = match get_token(vault) {
        Ok(token) => token,
        Err(e) => return Err(e),
    };
    credit_merchant_balance_for_token(&mut vault.merchants, merchant, &token, amount, kind)
}

/// Get the merchant's accumulated balance in the default token.
pub fn get_merchant_balance(vault: &SubscriptionVault, merchant: &Address) -> (balance: i128)
    ensures
        balance == match vault@.config.token {
            Some(token) => balance_of(
                vault@.merchants,
                Bucket { holder: *merchant, token },
            ),
            None => 0,
        },
{
    match get_token(vault) {
        Ok(token) => get_merchant_balance_by_token(vault, merchant, &token),
        Err(_) => 0,
    }
}

/// Token-scoped merchant balance.
pub fn get_merchant_balance_by_token(
    vault: &SubscriptionVault,
    merchant: &Address,
    token: &Address,
) -> (balance: i128)
    ensures
        balance == balance_of(vault@.merchants, Bucket { holder: *merchant, token: *token }),
{
    vault.merchants.balance(Bucket { holder: *merchant, token: *token })
}

/// Why a merchant may not withdraw, given what the vault holds of the token.
pub open spec fn payout_refusal(
    s: VaultState,
    merchant: Address,
    token: Address,
    amount: i128,
    custody: i128,
) -> Option<Error> {
    let bucket = Bucket { holder: merchant, token };
    let balance = balance_of(s.merchants, bucket);
    if amount <= 0 {
        Some(Error::InvalidAmount)
    } else if !is_accepted(s, token) {
        Some(Error::InvalidInput)
    } else if balance == 0 {
        Some(Error::NotFound)
    } else if amount > balance {
        Some(Error::InsufficientBalance)
    } else if custody < amount {
        Some(Error::InsufficientBalance)
    } else if earnings_of(s.merchants, bucket).withdrawals + amount > i128::MAX {
        Some(Error::Overflow)
    } else {
        None
    }
}

/// The books once `amount` left `bucket`, with its earnings as given.
pub open spec fn debited(
    m: Merchants,
    bucket: Bucket,
    amount: i128,
    earnings: TokenEarnings,
) -> Merchants {
    Merchants {
        balances: m.balances.insert(bucket, (balance_of(m, bucket) - amount) as i128),
        earnings: m.earnings.insert(bucket, earnings),
        ..m
    }
}

/// The state after a merchant's withdrawal: the balance shrinks, the withdrawal is
/// published, and the tokens go to the merchant.
pub open spec fn paid_out(
    s: VaultState,
    merchant: Address,
    token: Address,
    amount: i128,
    contract: Address,
) -> VaultState {
    let bucket = Bucket { holder: merchant, token };
    let earnings = earnings_of(s.merchants, bucket);
    VaultState {
        merchants: debited(
            s.merchants,
            bucket,
            amount,
            TokenEarnings {
                withdrawals: (earnings.withdrawals + amount) as i128,
                ..earnings
            },
        ),
        outbox: s.outbox.push(
            Effect::Publish(
                Event::MerchantWithdrawal(
                    MerchantWithdrawalEvent {
                        merchant,
                        token,
                        amount,
                        remaining_balance: (balance_of(s.merchants, bucket) - amount) as i128,
                    },
                ),
            ),
        ).push(
            Effect::Transfer(TokenTransfer { token, from: contract, to: merchant, amount }),
        ),
        ..s
    }
}

/// Withdraw accumulated earnings in the default token to the merchant address. `custody` is
/// what the vault holds of that token.
pub fn withdraw_merchant_funds(
    vault: &mut SubscriptionVault,
    call: &Call,
    merchant: Address,
    amount: i128,
    custody: i128,
) -> (result: Result<(), Error>)
    requires
        call.signed_by(merchant),
    ensures
        match old(vault)@.config.token {
            None => result == Err::<(), Error>(Error::NotInitialized) && final(vault)@
                == old(vault)@,
            Some(token) => match payout_refusal(
                old(vault)@,
                merchant,
                token,
                amount,
                custody,
            ) {
                Some(e) => result == Err::<(), Error>(e) && final(vault)@ == old(vault)@,
                None => result == Ok::<(), Error>(()) && final(vault)@ == paid_out(
                    old(vault)@,
                    merchant,
                    token,
                    amount,
                    call.contract,
                ),
            },
        },
{
    let token = match get_token(vault) {
        Ok(token) => token,
        Err(e) => return Err(e),
    };
    withdraw_merchant_funds_for_token(vault, call, merchant, token, amount, custody)
}

/// Withdraw accumulated earnings in one token to the merchant address. `custody` is what the
/// vault holds of that token.
pub fn withdraw_merchant_funds_for_token(
    vault: &mut SubscriptionVault,
    call: &Call,
    merchant: Address,
    token: Address,
    amount: i128,
    custody: i128,
) -> (result: Result<(), Error>)
    requires
        call.signed_by(merchant),
    ensures
        match payout_refusal(old(vault)@, merchant, token, amount, custody) {
            Some(e) => result == Err::<(), Error>(e) && final(vault)@ == old(vault)@,
            None => result == Ok::<(), Error>(()) && final(vault)@ == paid_out(
                old(vault)@,
                merchant,
                token,
                amount,
                call.contract,
            ),
        },
{
    // Checks
    if amount <= 0 {
        return Err(Error::InvalidAmount);
    }
    if !is_token_accepted(vault, &token) {
        return Err(Error::InvalidInput);
    }
    let bucket = Bucket { holder: merchant, token };
    let current: i128 = vault.merchants.balance(bucket);
    if current == 0 {
        return Err(Error::NotFound);
    }
    if amount > current {
        return Err(Error::InsufficientBalance);
    }
    if custody < amount {
        return Err(Error::InsufficientBalance);
    }
    let mut earnings = vault.merchants.token_earnings(bucket);
    earnings.withdrawals = match safe_add(earnings.withdrawals, amount) {
        Ok(total) => total,
        Err(_) => return Err(Error::Overflow),
    };
    let new_balance: i128 = match safe_sub_balance(current, amount) {
        Ok(balance) => balance,
        Err(e) => return Err(e),
    };

    // Effects
    vault.merchants.balances.set(bucket, new_balance);
    vault.merchants.earnings.set(bucket, earnings);
    vault.outbox.publish(
        Event::MerchantWithdrawal(
            MerchantWithdrawalEvent { merchant, token, amount, remaining_balance: new_balance },
        ),
    );

    // Interactions
    vault.outbox.transfer(
        TokenTransfer { token, from: call.contract, to: merchant, amount },
    );
    Ok(())
}

/// Why a merchant may not pay back to a subscriber.
pub open spec fn merchant_refund_refusal(
    s: VaultState,
    merchant: Address,
    token: Address,
    amount: i128,
) -> Option<Error> {
    let bucket = Bucket { holder: merchant, token };
    if amount <= 0 {
        Some(Error::InvalidAmount)
    } else if amount > balance_of(s.merchants, bucket) {
        Some(Error::InsufficientBalance)
    } else if earnings_of(s.merchants, bucket).refunds + amount > i128::MAX {
        Some(Error::Overflow)
    } else {
        None
    }
}

/// The state after a merchant paid back to a subscriber.
pub open spec fn merchant_refunded(
    s: VaultState,
    merchant: Address,
    subscriber: Address,
    token: Address,
    amount: i128,
    contract: Address,
) -> VaultState {
    let bucket = Bucket { holder: merchant, token };
    let earnings = earnings_of(s.merchants, bucket);
    VaultState {
        merchants: debited(
            s.merchants,
            bucket,
            amount,
            TokenEarnings { refunds: (earnings.refunds + amount) as i128, ..earnings },
        ),
        outbox: s.outbox.push(
            Effect::Publish(
                Event::MerchantRefund(
                    MerchantRefundEvent { merchant, subscriber, token, amount },
                ),
            ),
        ).push(
            Effect::Transfer(TokenTransfer { token, from: contract, to: subscriber, amount }),
        ),
        ..s
    }
}

/// A merchant pays part of its earnings back to a subscriber.
pub fn merchant_refund(
    vault: &mut SubscriptionVault,
    call: &Call,
    merchant: Address,
    subscriber: Address,
    token: Address,
    amount: i128,
) -> (result: Result<(), Error>)
    requires
        call.signed_by(merchant),
    ensures
        match merchant_refund_refusal(old(vault)@, merchant, token, amount) {
            Some(e) => result == Err::<(), Error>(e) && final(vault)@ == old(vault)@,
            None => result == Ok::<(), Error>(()) && final(vault)@ == merchant_refunded(
                old(vault)@,
                merchant,
                subscriber,
                token,
                amount,
                call.contract,
            ),
        },
{
    if amount <= 0 {
        return Err(Error::InvalidAmount);
    }
    let bucket = Bucket { holder: merchant, token };
    let current: i128 = vault.merchants.balance(bucket);
    if amount > current {
        return Err(Error::InsufficientBalance);
    }
    let mut earnings = vault.merchants.token_earnings(bucket);
    earnings.refunds = match safe_add(earnings.refunds, amount) {
        Ok(total) => total,
        Err(_) => return Err(Error::Overflow),
    };
    vault.merchants.balances.set(bucket, current - amount);
    vault.merchants.earnings.set(bucket, earnings);
    vault.outbox.publish(
        Event::MerchantRefund(MerchantRefundEvent { merchant, subscriber, token, amount }),
    );
    vault.outbox.transfer(
        TokenTransfer { token, from: call.contract, to: subscriber, amount },
    );
    Ok(())
}

/// Detailed earnings of a merchant in one token.
pub fn get_merchant_token_earnings(
    vault: &SubscriptionVault,
    merchant: &Address,
    token: &Address,
) -> (earnings: TokenEarnings)
    ensures
        earnings == earnings_of(vault@.merchants, Bucket { holder: *merchant, token: *token }),
{
    vault.merchants.token_earnings(Bucket { holder: *merchant, token: *token })
}

/// Whether a merchant has interacted with a token.
pub open spec fn has_earned(m: Merchants, merchant: Address, token: Address) -> bool {
    m.earnings.contains_key(Bucket { holder: merchant, token })
}

/// Tokens that a merchant has interacted with, each once.
fn tokens_of(vault: &SubscriptionVault, merchant: &Address) -> (tokens: Vec<Address>)
    ensures
        tokens@.no_duplicates(),
        forall|token: Address|
            tokens@.contains(token) <==> has_earned(vault@.merchants, *merchant, token),
{
    let buckets = vault.merchants.earnings.keys();
    let mut tokens: Vec<Address> = Vec::new();
    let mut i: usize = 0;
    while i < buckets.len()
        invariant
            i <= buckets@.len(),
            buckets@.no_duplicates(),
            tokens@.no_duplicates(),
            forall|token: Address|
                tokens@.contains(token) <==> exists|n: int|
                    0 <= n < i && #[trigger] buckets@[n] == (Bucket { holder: *merchant, token }),
        decreases buckets@.len() - i,
    {
        let ghost before = tokens@;
        let bucket = buckets[i];
        if bucket.holder == *merchant {
            proof {
                if before.contains(bucket.token) {
                    let n = choose|n: int|
                        0 <= n < i && #[trigger] buckets@[n] == (Bucket {
                            holder: *merchant,
                            token: bucket.token,
                        });
                    assert(buckets@[n] == buckets@[i as int]);
                }
            }
            tokens.push(bucket.token);
        }
        assert forall|token: Address|
            tokens@.contains(token) <==> exists|n: int|
                0 <= n < i + 1 && #[trigger] buckets@[n] == (Bucket {
                    holder: *merchant,
                    token,
                }) by {
            let wanted = Bucket { holder: *merchant, token };
            if before.contains(token) {
                let n = choose|n: int| 0 <= n < before.len() && before[n] == token;
                assert(tokens@[n] == token);
            }
            if buckets@[i as int] == wanted {
                assert(tokens@[before.len() as int] == token);
            }
            if tokens@.contains(token) && !before.contains(token) {
                let n = choose|n: int| 0 <= n < tokens@.len() && tokens@[n] == token;
                assert(n == before.len());
                assert(buckets@[i as int] == wanted);
            }
        }
        i = i + 1;
    }
    assert forall|token: Address|
        tokens@.contains(token) <==> has_earned(vault@.merchants, *merchant, token) by {
        let wanted = Bucket { holder: *merchant, token };
        assert(buckets@.contains(wanted) <==> vault@.merchants.earnings.contains_key(wanted));
    }
    tokens
}

/// Detailed earnings of a merchant for all tokens it has interacted with.
pub fn get_merchant_total_earnings(
    vault: &SubscriptionVault,
    merchant: &Address,
) -> (earnings: Vec<(Address, TokenEarnings)>)
    ensures
        forall|token: Address|
            has_earned(vault@.merchants, *merchant, token) <==> exists|i: int|
                0 <= i < earnings@.len() && #[trigger] earnings@[i].0 == token,
        forall|i: int|
            0 <= i < earnings@.len() ==> (#[trigger] earnings@[i]).1 == earnings_of(
                vault@.merchants,
                Bucket { holder: *merchant, token: earnings@[i].0 },
            ),
        forall|i: int, j: int|
            0 <= i < j < earnings@.len() ==> (#[trigger] earnings@[i]).0 != (
            #[trigger] earnings@[j]).0,
{
    let tokens = tokens_of(vault, merchant);
    let mut earnings: Vec<(Address, TokenEarnings)> = Vec::new();
    let mut i: usize = 0;
    while i < tokens.len()
        invariant
            i <= tokens@.len(),
            earnings@.len() == i,
            forall|n: int|
                0 <= n < i ==> #[trigger] earnings@[n] == (
                    tokens@[n],
                    earnings_of(
                        vault@.merchants,
                        Bucket { holder: *merchant, token: tokens@[n] },
                    ),
                ),
        decreases tokens@.len() - i,
    {
        earnings.push((tokens[i], get_merchant_token_earnings(vault, merchant, &tokens[i])));
        i = i + 1;
    }
    assert forall|token: Address|
        has_earned(vault@.merchants, *merchant, token) <==> exists|n: int|
            0 <= n < earnings@.len() && #[trigger] earnings@[n].0 == token by {
        if has_earned(vault@.merchants, *merchant, token) {
            assert(tokens@.contains(token));
            let n = choose|n: int| 0 <= n < tokens@.len() && tokens@[n] == token;
            assert(earnings@[n].0 == token);
        }
        if exists|n: int| 0 <= n < earnings@.len() && #[trigger] earnings@[n].0 == token {
            let n = choose|n: int| 0 <= n < earnings@.len() && #[trigger] earnings@[n].0 == token;
            assert(tokens@[n] == token);
            assert(tokens@.contains(token));
        }
    }
    earnings
}

/// Totals of a merchant's earnings in one token. Totals that leave the range of amounts are
/// an error.
pub open spec fn reconciled(token: Address, earnings: TokenEarnings) -> Result<
    ReconciliationSnapshot,
    Error,
> {
    let accruals = earnings.accruals;
    match checked_total(seq![accruals.interval, accruals.usage, accruals.one_off]) {
        Err(e) => Err(e),
        Ok(total) => match amount_of(total - earnings.withdrawals) {
            Err(e) => Err(e),
            Ok(kept) => match amount_of(kept - earnings.refunds) {
                Err(e) => Err(e),
                Ok(computed_balance) => Ok(
                    ReconciliationSnapshot {
                        token,
                        total_accruals: total,
                        total_withdrawals: earnings.withdrawals,
                        total_refunds: earnings.refunds,
                        computed_balance,
                    },
                ),
            },
        },
    }
}

/// Adds up a merchant's earnings in one token.
fn reconcile(token: Address, earnings: &TokenEarnings) -> (result: Result<
    ReconciliationSnapshot,
    Error,
>)
    ensures
        result == reconciled(token, *earnings),
{
    let accruals = earnings.accruals;
    proof {
        let all = seq![accruals.interval, accruals.usage, accruals.one_off];
        let two = all.drop_last();
        let one = two.drop_last();
        assert(one.drop_last() =~= Seq::<i128>::empty());
        assert(checked_total(one.drop_last()) == Ok::<i128, Error>(0));
        assert(checked_total(one) == Ok::<i128, Error>(accruals.interval));
        assert(checked_total(two) == amount_of(accruals.interval + accruals.usage));
    }
    let recurring: i128 = match safe_add(accruals.interval, accruals.usage) {
        Ok(sum) => sum,
        Err(e) => return Err(e),
    };
    let total_accruals: i128 = match safe_add(recurring, accruals.one_off) {
        Ok(sum) => sum,
        Err(e) => return Err(e),
    };
    let kept: i128 = match safe_sub(total_accruals, earnings.withdrawals) {
        Ok(kept) => kept,
        Err(e) => return Err(e),
    };
    match safe_sub(kept, earnings.refunds) {
        Err(e) => Err(e),
        Ok(computed_balance) => Ok(
            ReconciliationSnapshot {
                token,
                total_accruals,
                total_withdrawals: earnings.withdrawals,
                total_refunds: earnings.refunds,
                computed_balance,
            },
        ),
    }
}

/// Totals of a merchant's earnings for all tokens it has interacted with, which verify that
/// the balance is what was accrued less what was withdrawn and refunded. Fails if and only
/// if the totals of some token leave the range of amounts.
pub fn get_reconciliation_snapshot(
    vault: &SubscriptionVault,
    merchant: &Address,
) -> (result: Result<Vec<ReconciliationSnapshot>, Error>)
    ensures
        match result {
            Ok(snapshots) => {
                &&& forall|token: Address|
                    has_earned(vault@.merchants, *merchant, token) <==> exists|i: int|
                        0 <= i < snapshots@.len() && #[trigger] snapshots@[i].token == token
                &&& forall|i: int|
                    0 <= i < snapshots@.len() ==> reconciled(
                        snapshots@[i].token,
                        earnings_of(
                            vault@.merchants,
                            Bucket { holder: *merchant, token: snapshots@[i].token },
                        ),
                    ) == Ok::<ReconciliationSnapshot, Error>(#[trigger] snapshots@[i])
                &&& forall|i: int, j: int|
                    0 <= i < j < snapshots@.len() ==> (#[trigger] snapshots@[i]).token != (
                    #[trigger] snapshots@[j]).token
            },
            Err(e) => exists|token: Address| #[trigger]
                has_earned(vault@.merchants, *merchant, token) && reconciled(
                    token,
                    earnings_of(vault@.merchants, Bucket { holder: *merchant, token }),
                ) == Err::<ReconciliationSnapshot, Error>(e),
        },
{
    let tokens = tokens_of(vault, merchant);
    let mut snapshots: Vec<ReconciliationSnapshot> = Vec::new();
    let mut i: usize = 0;
    while i < tokens.len()
        invariant
            i <= tokens@.len(),
            snapshots@.len() == i,
            forall|token: Address|
                tokens@.contains(token) <==> has_earned(vault@.merchants, *merchant, token),
            forall|n: int|
                0 <= n < i ==> (#[trigger] snapshots@[n]).token == tokens@[n] && reconciled(
                    tokens@[n],
                    earnings_of(
                        vault@.merchants,
                        Bucket { holder: *merchant, token: tokens@[n] },
                    ),
                ) == Ok::<ReconciliationSnapshot, Error>(snapshots@[n]),
        decreases tokens@.len() - i,
    {
        let token = tokens[i];
        let earnings = get_merchant_token_earnings(vault, merchant, &token);
        match reconcile(token, &earnings) {
            Ok(snapshot) => {
                snapshots.push(snapshot);
            },
            Err(e) => {
                assert(tokens@.contains(token));
                assert(has_earned(vault@.merchants, *merchant, token));
                return Err(e);
            },
        }
        i = i + 1;
    }
    assert forall|token: Address|
        has_earned(vault@.merchants, *merchant, token) <==> exists|n: int|
            0 <= n < snapshots@.len() && #[trigger] snapshots@[n].token == token by {
        if has_earned(vault@.merchants, *merchant, token) {
            assert(tokens@.contains(token));
            let n = choose|n: int| 0 <= n < tokens@.len() && tokens@[n] == token;
            assert(snapshots@[n].token == token);
        }
        if exists|n: int| 0 <= n < snapshots@.len() && #[trigger] snapshots@[n].token == token {
            let n = choose|n: int|
                0 <= n < snapshots@.len() && #[trigger] snapshots@[n].token == token;
            assert(tokens@[n] == token);
            assert(tokens@.contains(token));
        }
    }
    Ok(snapshots)
}

/// Check if a merchant has enabled a blanket pause.
pub fn get_merchant_paused(vault: &SubscriptionVault, merchant: Address) -> (paused: bool)
    ensures
        paused == is_paused(vault@.merchants, merchant),
{
    vault.merchants.paused(merchant)
}

/// The state after a merchant set its blanket pause. Setting it to what it is changes
/// nothing and publishes nothing.
pub open spec fn with_pause(
    s: VaultState,
    merchant: Address,
    paused: bool,
    now: u64,
) -> VaultState {
    if is_paused(s.merchants, merchant) == paused {
        s
    } else {
        VaultState {
            merchants: Merchants {
                paused: s.merchants.paused.insert(merchant, paused),
                ..s.merchants
            },
            outbox: s.outbox.push(
                Effect::Publish(
                    if paused {
                        Event::MerchantPaused(MerchantPausedEvent { merchant, timestamp: now })
                    } else {
                        Event::MerchantUnpaused(
                            MerchantUnpausedEvent { merchant, timestamp: now },
                        )
                    },
                ),
            ),
            ..s
        }
    }
}

/// Enable a blanket pause for all of the merchant's subscriptions.
pub fn pause_merchant(
    vault: &mut SubscriptionVault,
    call: &Call,
    merchant: Address,
) -> (result: Result<(), Error>)
    requires
        call.signed_by(merchant),
    ensures
        result == Ok::<(), Error>(()),
        final(vault)@ == with_pause(old(vault)@, merchant, true, call.now),
{
    if !vault.merchants.paused(merchant) {
        vault.merchants.paused.set(merchant, true);
        vault.outbox.publish(
            Event::MerchantPaused(MerchantPausedEvent { merchant, timestamp: call.now }),
        );
    }
    Ok(())
}

/// Disable a blanket pause for the merchant's subscriptions.
pub fn unpause_merchant(
    vault: &mut SubscriptionVault,
    call: &Call,
    merchant: Address,
) -> (result: Result<(), Error>)
    requires
        call.signed_by(merchant),
    ensures
        result == Ok::<(), Error>(()),
        final(vault)@ == with_pause(old(vault)@, merchant, false, call.now),
{
    if vault.merchants.paused(merchant) {
        vault.merchants.paused.set(merchant, false);
        vault.outbox.publish(
            Event::MerchantUnpaused(MerchantUnpausedEvent { merchant, timestamp: call.now }),
        );
    }
    Ok(())
}

/// Longest redirect URL of a merchant, in bytes.
pub const MAX_REDIRECT_URL_LENGTH: usize = 256;

/// Set global configuration for a merchant. A redirect URL that is too long is refused.
pub fn set_merchant_config(
    vault: &mut SubscriptionVault,
    call: &Call,
    merchant: Address,
    config: MerchantConfig<Vec<u8>>,
) -> (result: Result<(), Error>)
    requires
        call.signed_by(merchant),
    ensures
        if config.redirect_url@.len() > MAX_REDIRECT_URL_LENGTH {
            result == Err::<(), Error>(Error::InvalidAmount) && final(vault)@ == old(vault)@
        } else {
            result == Ok::<(), Error>(()) && final(vault)@ == (VaultState {
                merchants: Merchants {
                    configs: old(vault)@.merchants.configs.insert(merchant, config@),
                    ..old(vault)@.merchants
                },
                ..old(vault)@
            })
        },
{
    if config.redirect_url.len() > MAX_REDIRECT_URL_LENGTH {
        return Err(Error::InvalidAmount);
    }
    proof {
        lemma_viewed_insert(vault.merchants.configs@, merchant, config);
    }
    vault.merchants.configs.set(merchant, config);
    Ok(())
}

/// Get the global configuration for a merchant.
pub fn get_merchant_config(
    vault: &SubscriptionVault,
    merchant: Address,
) -> (config: Option<MerchantConfig<Vec<u8>>>)
    ensures
        match config {
            Some(c) => vault@.merchants.configs.get(merchant) == Some(c@),
            None => !vault@.merchants.configs.contains_key(merchant),
        },
{
    match vault.merchants.configs.get(merchant) {
        Some(config) => Some(
            MerchantConfig {
                fee_address: config.fee_address,
                redirect_url: copy_text(&config.redirect_url),
                is_paused: config.is_paused,
            },
        ),
        None => None,
    }
}

} // verus!
