//! What becomes of a subscription from its creation to its last refund, field by field.
use crate::charge_laws::changes_one;
use crate::events::{
    Effect, Event, FundsDepositedEvent, PartialRefundEvent, SubscriptionCancelledEvent,
    SubscriptionCreatedEvent, SubscriptionPausedEvent, SubscriptionResumedEvent, TokenTransfer,
};
use crate::laws::exposure_sum;
use crate::operation::{after, is_refused, Moment, Operation};
use crate::plan::{active_below, from_plan_refusal, is_active_on, plan_is_full};
use crate::price_laws::accepted_tokens_are_registered;
use crate::subscription::{
    creation_refusal, credit_limit, credit_refusal, deposit_refusal, exposure, exposure_below,
    refund_refusal, resume_refusal, status_refusal, usage_limits_refusal, withdrawal_refusal,
};
use crate::types::{Address, Bucket, Error, Subscription, SubscriptionStatus, UsageLimits};
use crate::vault::{Usage, VaultState};
use vstd::prelude::*;

verus! {

// ── How the laws speak ───────────────────────────────────────────────────────

/// The registry has an entry of the token.
pub open spec fn is_registered(s: VaultState, token: Address) -> bool {
    exists|i: int| 0 <= i < s.tokens.len() && (#[trigger] s.tokens[i]).token == token
}

/// A new subscription took the next number: it stands under that number, is listed last for
/// its merchant and for its token, and is announced with its terms; no other subscription
/// changed.
pub open spec fn takes_the_next_number(s: VaultState, t: VaultState) -> bool {
    let id = s.next_id;
    let sub = t.subscriptions[id];
    &&& t.next_id == id + 1
    &&& t.subscriptions == s.subscriptions.insert(id, sub)
    &&& t.by_merchant == s.by_merchant.push((sub.merchant, id))
    &&& t.by_token == s.by_token.push((sub.token, id))
    &&& t.outbox == s.outbox.push(
        Effect::Publish(
            Event::SubscriptionCreated(
                SubscriptionCreatedEvent {
                    subscription_id: id,
                    subscriber: sub.subscriber,
                    merchant: sub.merchant,
                    amount: sub.amount,
                    interval_seconds: sub.interval_seconds,
                    lifetime_cap: sub.lifetime_cap,
                },
            ),
        ),
    )
}

/// A subscription that has just begun: active, with nothing prepaid or charged, and the
/// present time as the time of its last payment.
pub open spec fn has_just_begun(sub: Subscription, now: u64) -> bool {
    &&& sub.status == SubscriptionStatus::Active
    &&& sub.prepaid_balance == 0
    &&& sub.lifetime_charged == 0
    &&& sub.last_payment_timestamp == now
}

/// Nothing of a subscription changed but its prepaid balance.
pub open spec fn keeps_all_but_the_balance(before: Subscription, after: Subscription) -> bool {
    &&& after.subscriber == before.subscriber
    &&& after.merchant == before.merchant
    &&& after.token == before.token
    &&& after.amount == before.amount
    &&& after.interval_seconds == before.interval_seconds
    &&& after.last_payment_timestamp == before.last_payment_timestamp
    &&& after.status == before.status
    &&& after.usage_enabled == before.usage_enabled
    &&& after.lifetime_cap == before.lifetime_cap
    &&& after.lifetime_charged == before.lifetime_charged
}

/// Nothing of a subscription changed but its status.
pub open spec fn keeps_all_but_the_status(before: Subscription, after: Subscription) -> bool {
    &&& after.subscriber == before.subscriber
    &&& after.merchant == before.merchant
    &&& after.token == before.token
    &&& after.amount == before.amount
    &&& after.interval_seconds == before.interval_seconds
    &&& after.last_payment_timestamp == before.last_payment_timestamp
    &&& after.prepaid_balance == before.prepaid_balance
    &&& after.usage_enabled == before.usage_enabled
    &&& after.lifetime_cap == before.lifetime_cap
    &&& after.lifetime_charged == before.lifetime_charged
}

// ── Credit ───────────────────────────────────────────────────────────────────

/// A credit limit is reported as it was set, and as none where it never was.
pub proof fn credit_limit_is_reported(s: VaultState, bucket: Bucket)
    ensures
        s.credit_limits.contains_key(bucket) ==> credit_limit(s, bucket)
            == s.credit_limits[bucket],
        !s.credit_limits.contains_key(bucket) ==> credit_limit(s, bucket) == 0,
{
}

/// New exposure is refused if and only if a limit is set (one of zero is none) and the
/// subscriber's exposure with it would pass the limit, or cannot be computed.
pub proof fn credit_is_checked(s: VaultState, bucket: Bucket, added: i128)
    ensures
        ({
            let refusal = credit_refusal(s, bucket, added);
            let limited = s.credit_limits.contains_key(bucket) && s.credit_limits[bucket] != 0;
            let total = exposure(s, bucket);
            if !limited {
                refusal is None
            } else if total is Err {
                refusal == Some(total->Err_0)
            } else if total->Ok_0 + added > i128::MAX {
                refusal == Some(Error::Overflow)
            } else if total->Ok_0 + added < i128::MIN {
                refusal == Some(Error::Underflow)
            } else if total->Ok_0 + added > s.credit_limits[bucket] {
                refusal == Some(Error::CreditLimitExceeded)
            } else {
                refusal is None
            }
        }),
{
}

/// The exposure of a subscriber whose balances and amounts are not negative is known
/// whenever the machine's numbers hold it.
pub proof fn exposure_is_known(s: VaultState, bucket: Bucket)
    requires
        forall|id: u32| #[trigger]
            s.subscriptions.contains_key(id) ==> s.subscriptions[id].prepaid_balance >= 0
                && s.subscriptions[id].amount >= 0,
        exposure_sum(s.subscriptions, bucket, s.next_id as nat) <= i128::MAX,
    ensures
        exposure(s, bucket) is Ok,
        exposure(s, bucket)->Ok_0 == exposure_sum(s.subscriptions, bucket, s.next_id as nat),
{
    lemma_exposure_is_known(s, bucket, s.next_id as nat, s.next_id as nat);
}

proof fn lemma_exposure_is_known(s: VaultState, bucket: Bucket, below: nat, end: nat)
    requires
        below <= end <= u32::MAX,
        forall|id: u32| #[trigger]
            s.subscriptions.contains_key(id) ==> s.subscriptions[id].prepaid_balance >= 0
                && s.subscriptions[id].amount >= 0,
        exposure_sum(s.subscriptions, bucket, end) <= i128::MAX,
    ensures
        0 <= exposure_sum(s.subscriptions, bucket, below) <= exposure_sum(
            s.subscriptions,
            bucket,
            end,
        ),
        exposure_below(s, bucket, below) is Ok,
        exposure_below(s, bucket, below)->Ok_0 == exposure_sum(s.subscriptions, bucket, below),
    decreases end, below,
{
    if below < end {
        assert(exposure_sum(s.subscriptions, bucket, (end - 1) as nat) <= exposure_sum(
            s.subscriptions,
            bucket,
            end,
        )) by {
            assert(s.subscriptions.contains_key((end - 1) as u32)
                || !s.subscriptions.contains_key((end - 1) as u32));
        }
        lemma_exposure_is_known(s, bucket, below, (end - 1) as nat);
    } else if below > 0 {
        let id = (below - 1) as u32;
        assert(s.subscriptions.contains_key(id) || !s.subscriptions.contains_key(id));
        lemma_exposure_is_known(s, bucket, (below - 1) as nat, (below - 1) as nat);
    }
}

// ── Creation ─────────────────────────────────────────────────────────────────

/// Creation is refused in this order: of a negative amount with `InvalidAmount`, in a token
/// that is not registered with `InvalidInput`, with a cap that is not positive with
/// `InvalidAmount`, for want of credit, and when the numbers are used up with
/// `SubscriptionLimitReached`.
pub proof fn creation_is_checked_in_order(
    s: VaultState,
    subscriber: Address,
    token: Address,
    amount: i128,
    lifetime_cap: Option<i128>,
)
    ensures
        ({
            let refusal = creation_refusal(s, subscriber, token, amount, lifetime_cap);
            let credit = credit_refusal(s, Bucket { holder: subscriber, token }, amount);
            if amount < 0 {
                refusal == Some(Error::InvalidAmount)
            } else if !is_registered(s, token) {
                refusal == Some(Error::InvalidInput)
            } else if lifetime_cap is Some && lifetime_cap->Some_0 <= 0 {
                refusal == Some(Error::InvalidAmount)
            } else if credit is Some {
                refusal == credit
            } else if s.next_id == u32::MAX {
                refusal == Some(Error::SubscriptionLimitReached)
            } else {
                refusal is None
            }
        }),
{
    accepted_tokens_are_registered(s, token);
}

/// A subscription that is created has the terms that were asked for and has just begun; it
/// takes the next number and nothing else changes. A stopped vault creates none, nor one
/// that refuses it.
pub proof fn created_subscription_has_the_terms_asked_for(
    s: VaultState,
    m: Moment,
    subscriber: Address,
    merchant: Address,
    token: Address,
    amount: i128,
    interval_seconds: u64,
    usage_enabled: bool,
    lifetime_cap: Option<i128>,
)
    ensures
        ({
            let t = after(
                s,
                m,
                Operation::CreateSubscription {
                    subscriber,
                    merchant,
                    token,
                    amount,
                    interval_seconds,
                    usage_enabled,
                    lifetime_cap,
                },
            );
            let sub = t.subscriptions[s.next_id];
            if s.config.emergency_stop || creation_refusal(
                s,
                subscriber,
                token,
                amount,
                lifetime_cap,
            ) is Some {
                t == s
            } else {
                &&& takes_the_next_number(s, t)
                &&& has_just_begun(sub, m.now)
                &&& sub.subscriber == subscriber
                &&& sub.merchant == merchant
                &&& sub.token == token
                &&& sub.amount == amount
                &&& sub.interval_seconds == interval_seconds
                &&& sub.usage_enabled == usage_enabled
                &&& sub.lifetime_cap == lifetime_cap
                &&& t == (VaultState {
                    next_id: t.next_id,
                    subscriptions: t.subscriptions,
                    by_merchant: t.by_merchant,
                    by_token: t.by_token,
                    outbox: t.outbox,
                    ..s
                })
            }
        }),
{
    reveal(is_refused);
}

/// A subscription that is made from a plan has the plan's terms: its merchant, token, amount,
/// interval, metering and cap are those of the template. It has just begun, takes the next
/// number and is noted as one of the plan; nothing else changes.
pub proof fn planned_subscription_has_the_terms_of_the_plan(
    s: VaultState,
    m: Moment,
    subscriber: Address,
    plan_template_id: u32,
)
    ensures
        ({
            let t = after(
                s,
                m,
                Operation::CreateSubscriptionFromPlan { subscriber, plan_template_id },
            );
            let plan = s.plans[plan_template_id];
            let sub = t.subscriptions[s.next_id];
            if from_plan_refusal(s, subscriber, plan_template_id) is Some {
                t == s
            } else {
                &&& s.plans.contains_key(plan_template_id)
                &&& takes_the_next_number(s, t)
                &&& has_just_begun(sub, m.now)
                &&& sub.subscriber == subscriber
                &&& sub.merchant == plan.merchant
                &&& sub.token == plan.token
                &&& sub.amount == plan.amount
                &&& sub.interval_seconds == plan.interval_seconds
                &&& sub.usage_enabled == plan.usage_enabled
                &&& sub.lifetime_cap == plan.lifetime_cap
                &&& t.plan_of == s.plan_of.insert(s.next_id, plan_template_id)
                &&& t == (VaultState {
                    next_id: t.next_id,
                    subscriptions: t.subscriptions,
                    by_merchant: t.by_merchant,
                    by_token: t.by_token,
                    plan_of: t.plan_of,
                    outbox: t.outbox,
                    ..s
                })
            }
        }),
{
    reveal(is_refused);
}

/// The active subscriptions of a subscriber on a plan, among the numbers below `end`.
pub open spec fn active_on(
    s: VaultState,
    subscriber: Address,
    plan_template_id: u32,
    end: nat,
) -> Set<nat> {
    Set::new(
        |id: nat|
            id < end && s.subscriptions.contains_key(id as u32) && s.plan_of.contains_key(
                id as u32,
            ) && s.plan_of[id as u32] == plan_template_id && s.subscriptions[id as u32].subscriber
                == subscriber && s.subscriptions[id as u32].status == SubscriptionStatus::Active,
    )
}

proof fn lemma_active_are_counted(
    s: VaultState,
    subscriber: Address,
    plan_template_id: u32,
    end: nat,
)
    requires
        end <= u32::MAX,
    ensures
        active_on(s, subscriber, plan_template_id, end).finite(),
        active_on(s, subscriber, plan_template_id, end).len() == active_below(
            s,
            subscriber,
            plan_template_id,
            end,
        ),
    decreases end,
{
    let all = active_on(s, subscriber, plan_template_id, end);
    if end == 0 {
        assert(all =~= Set::empty());
    } else {
        let last = (end - 1) as nat;
        let front = active_on(s, subscriber, plan_template_id, last);
        lemma_active_are_counted(s, subscriber, plan_template_id, last);
        assert(is_active_on(s, last as u32, subscriber, plan_template_id) <==> all.contains(last));
        if all.contains(last) {
            assert(all =~= front.insert(last));
        } else {
            assert(all =~= front);
        }
    }
}

/// A plan with a limit takes no further subscription of a subscriber who has as many active
/// ones on it. Without a limit, or with one of zero, a plan is never full.
pub proof fn full_plan_is_one_with_as_many_active(
    s: VaultState,
    subscriber: Address,
    plan_template_id: u32,
)
    ensures
        plan_is_full(s, subscriber, plan_template_id) <==> s.plan_limits.contains_key(
            plan_template_id,
        ) && s.plan_limits[plan_template_id] != 0 && active_on(
            s,
            subscriber,
            plan_template_id,
            s.next_id as nat,
        ).len() >= s.plan_limits[plan_template_id],
{
    lemma_active_are_counted(s, subscriber, plan_template_id, s.next_id as nat);
}

/// A subscription from a plan is refused in this order: of an unknown plan with `NotFound`,
/// of a plan that is full for the subscriber with `MaxConcurrentSubscriptionsReached`, for
/// want of credit, and when the numbers are used up with `SubscriptionLimitReached`.
pub proof fn planned_creation_is_checked_in_order(
    s: VaultState,
    subscriber: Address,
    plan_template_id: u32,
)
    ensures
        ({
            let refusal = from_plan_refusal(s, subscriber, plan_template_id);
            let plan = s.plans[plan_template_id];
            let credit = credit_refusal(
                s,
                Bucket { holder: subscriber, token: plan.token },
                plan.amount,
            );
            if !s.plans.contains_key(plan_template_id) {
                refusal == Some(Error::NotFound)
            } else if plan_is_full(s, subscriber, plan_template_id) {
                refusal == Some(Error::MaxConcurrentSubscriptionsReached)
            } else if credit is Some {
                refusal == credit
            } else if s.next_id == u32::MAX {
                refusal == Some(Error::SubscriptionLimitReached)
            } else {
                refusal is None
            }
        }),
{
}

// ── Deposits ─────────────────────────────────────────────────────────────────

/// Deposits are refused in this order: before the vault is set up with `NotInitialized`,
/// below the least top-up with `BelowMinimumTopup`, of a negative amount with
/// `InvalidAmount`, of an unknown subscription with `NotFound`, for want of the credit of its
/// subscriber in its token, and where the balance would leave the machine's numbers with
/// `Overflow`.
pub proof fn deposit_is_checked_in_order(s: VaultState, id: u32, amount: i128)
    ensures
        ({
            let refusal = deposit_refusal(s, id, amount);
            let sub = s.subscriptions[id];
            let credit = credit_refusal(
                s,
                Bucket { holder: sub.subscriber, token: sub.token },
                amount,
            );
            if s.config.min_topup is None {
                refusal == Some(Error::NotInitialized)
            } else if amount < s.config.min_topup->Some_0 {
                refusal == Some(Error::BelowMinimumTopup)
            } else if amount < 0 {
                refusal == Some(Error::InvalidAmount)
            } else if !s.subscriptions.contains_key(id) {
                refusal == Some(Error::NotFound)
            } else if credit is Some {
                refusal == credit
            } else if sub.prepaid_balance + amount > i128::MAX {
                refusal == Some(Error::Overflow)
            } else {
                refusal is None
            }
        }),
{
}

/// A deposit raises the prepaid balance by its amount and nothing else of the subscription,
/// takes the amount in the subscription's token from the payer, and announces the new
/// balance. A stopped vault takes none.
pub proof fn deposit_raises_only_the_balance(
    s: VaultState,
    m: Moment,
    id: u32,
    payer: Address,
    amount: i128,
)
    ensures
        ({
            let t = after(
                s,
                m,
                Operation::DepositFunds { subscription_id: id, subscriber: payer, amount },
            );
            let before = s.subscriptions[id];
            let sub = t.subscriptions[id];
            if s.config.emergency_stop || deposit_refusal(s, id, amount) is Some {
                t == s
            } else {
                &&& changes_one(s, t, id)
                &&& sub.prepaid_balance == before.prepaid_balance + amount
                &&& keeps_all_but_the_balance(before, sub)
                &&& t.outbox == s.outbox.push(
                    Effect::Transfer(
                        TokenTransfer {
                            token: before.token,
                            from: payer,
                            to: m.contract,
                            amount,
                        },
                    ),
                ).push(
                    Effect::Publish(
                        Event::FundsDeposited(
                            FundsDepositedEvent {
                                subscription_id: id,
                                subscriber: payer,
                                amount,
                                prepaid_balance: sub.prepaid_balance,
                            },
                        ),
                    ),
                )
                &&& t == (VaultState { subscriptions: t.subscriptions, outbox: t.outbox, ..s })
            }
        }),
{
    reveal(is_refused);
    let t = after(
        s,
        m,
        Operation::DepositFunds { subscription_id: id, subscriber: payer, amount },
    );
    assert(t.subscriptions.dom() =~= s.subscriptions.dom());
}

// ── Status changes ───────────────────────────────────────────────────────────

/// Cancelling is refused of an unknown subscription with `NotFound` and to anyone but its
/// subscriber and its merchant with `Forbidden`; it is open in every status.
pub proof fn cancelling_is_open_to_both_parties(s: VaultState, id: u32, authorizer: Address)
    ensures
        ({
            let refusal = status_refusal(s, id, authorizer, SubscriptionStatus::Cancelled);
            let sub = s.subscriptions[id];
            if !s.subscriptions.contains_key(id) {
                refusal == Some(Error::NotFound)
            } else if authorizer != sub.subscriber && authorizer != sub.merchant {
                refusal == Some(Error::Forbidden)
            } else {
                refusal is None
            }
        }),
{
}

/// Pausing is refused of an unknown subscription with `NotFound`, to anyone but its
/// subscriber and its merchant with `Forbidden`, and of one that is neither active nor
/// already paused with `InvalidStatusTransition`.
pub proof fn pausing_is_for_active_subscriptions(s: VaultState, id: u32, authorizer: Address)
    ensures
        ({
            let refusal = status_refusal(s, id, authorizer, SubscriptionStatus::Paused);
            let sub = s.subscriptions[id];
            if !s.subscriptions.contains_key(id) {
                refusal == Some(Error::NotFound)
            } else if authorizer != sub.subscriber && authorizer != sub.merchant {
                refusal == Some(Error::Forbidden)
            } else if sub.status != SubscriptionStatus::Active && sub.status
                != SubscriptionStatus::Paused {
                refusal == Some(Error::InvalidStatusTransition)
            } else {
                refusal is None
            }
        }),
{
}

/// Resuming is refused of an unknown subscription with `NotFound`, to anyone but its
/// subscriber and its merchant with `Forbidden`, of a cancelled one with
/// `InvalidStatusTransition`, and of an underfunded one whose interval has passed while the
/// balance does not cover it with `InsufficientBalance`.
pub proof fn resuming_needs_the_owed_interval(
    s: VaultState,
    id: u32,
    authorizer: Address,
    now: u64,
)
    ensures
        ({
            let refusal = resume_refusal(s, id, authorizer, now);
            let sub = s.subscriptions[id];
            if !s.subscriptions.contains_key(id) {
                refusal == Some(Error::NotFound)
            } else if authorizer != sub.subscriber && authorizer != sub.merchant {
                refusal == Some(Error::Forbidden)
            } else if sub.status == SubscriptionStatus::Cancelled {
                refusal == Some(Error::InvalidStatusTransition)
            } else if sub.status == SubscriptionStatus::InsufficientBalance && now
                >= sub.last_payment_timestamp + sub.interval_seconds && sub.prepaid_balance
                < sub.amount {
                refusal == Some(Error::InsufficientBalance)
            } else {
                refusal is None
            }
        }),
{
}

/// Cancelling, pausing and resuming change nothing of a subscription but its status, nothing
/// else at all, and announce who did it; a cancellation also announces the balance that the
/// subscriber may take back. Resuming leaves the time of the last payment as it was.
pub proof fn status_changes_change_only_the_status(
    s: VaultState,
    m: Moment,
    id: u32,
    authorizer: Address,
)
    ensures
        ({
            let t = after(s, m, Operation::CancelSubscription { subscription_id: id, authorizer });
            if status_refusal(s, id, authorizer, SubscriptionStatus::Cancelled) is Some {
                t == s
            } else {
                &&& changes_one(s, t, id)
                &&& t.subscriptions[id].status == SubscriptionStatus::Cancelled
                &&& keeps_all_but_the_status(s.subscriptions[id], t.subscriptions[id])
                &&& t.outbox == s.outbox.push(
                    Effect::Publish(
                        Event::SubscriptionCancelled(
                            SubscriptionCancelledEvent {
                                subscription_id: id,
                                authorizer,
                                refund_amount: s.subscriptions[id].prepaid_balance,
                            },
                        ),
                    ),
                )
                &&& t == (VaultState { subscriptions: t.subscriptions, outbox: t.outbox, ..s })
            }
        }),
        ({
            let t = after(s, m, Operation::PauseSubscription { subscription_id: id, authorizer });
            if status_refusal(s, id, authorizer, SubscriptionStatus::Paused) is Some {
                t == s
            } else {
                &&& changes_one(s, t, id)
                &&& t.subscriptions[id].status == SubscriptionStatus::Paused
                &&& keeps_all_but_the_status(s.subscriptions[id], t.subscriptions[id])
                &&& t.outbox == s.outbox.push(
                    Effect::Publish(
                        Event::SubscriptionPaused(
                            SubscriptionPausedEvent { subscription_id: id, authorizer },
                        ),
                    ),
                )
                &&& t == (VaultState { subscriptions: t.subscriptions, outbox: t.outbox, ..s })
            }
        }),
        ({
            let t = after(s, m, Operation::ResumeSubscription { subscription_id: id, authorizer });
            if resume_refusal(s, id, authorizer, m.now) is Some {
                t == s
            } else {
                &&& changes_one(s, t, id)
                &&& t.subscriptions[id].status == SubscriptionStatus::Active
                &&& keeps_all_but_the_status(s.subscriptions[id], t.subscriptions[id])
                &&& t.outbox == s.outbox.push(
                    Effect::Publish(
                        Event::SubscriptionResumed(
                            SubscriptionResumedEvent { subscription_id: id, authorizer },
                        ),
                    ),
                )
                &&& t == (VaultState { subscriptions: t.subscriptions, outbox: t.outbox, ..s })
            }
        }),
{
    reveal(is_refused);
    let cancelled = after(
        s,
        m,
        Operation::CancelSubscription { subscription_id: id, authorizer },
    );
    let paused = after(s, m, Operation::PauseSubscription { subscription_id: id, authorizer });
    let resumed = after(s, m, Operation::ResumeSubscription { subscription_id: id, authorizer });
    assert(cancelled.subscriptions.dom() =~= s.subscriptions.dom());
    assert(paused.subscriptions.dom() =~= s.subscriptions.dom());
    assert(resumed.subscriptions.dom() =~= s.subscriptions.dom());
}

// ── Money back ───────────────────────────────────────────────────────────────

/// What is prepaid goes back to the subscriber and nobody else, and only of a cancelled
/// subscription: `NotFound`, `Forbidden` and `InvalidStatusTransition` in this order.
pub proof fn withdrawal_is_checked_in_order(s: VaultState, id: u32, subscriber: Address)
    ensures
        ({
            let refusal = withdrawal_refusal(s, id, subscriber);
            let sub = s.subscriptions[id];
            if !s.subscriptions.contains_key(id) {
                refusal == Some(Error::NotFound)
            } else if subscriber != sub.subscriber {
                refusal == Some(Error::Forbidden)
            } else if sub.status != SubscriptionStatus::Cancelled {
                refusal == Some(Error::InvalidStatusTransition)
            } else {
                refusal is None
            }
        }),
{
}

/// A withdrawal pays out the whole prepaid balance in the subscription's token and leaves
/// none; nothing else of the subscription changes, and where nothing is prepaid nothing
/// happens.
pub proof fn withdrawal_pays_out_the_balance(
    s: VaultState,
    m: Moment,
    id: u32,
    subscriber: Address,
)
    ensures
        ({
            let t = after(
                s,
                m,
                Operation::WithdrawSubscriberFunds { subscription_id: id, subscriber },
            );
            let before = s.subscriptions[id];
            let sub = t.subscriptions[id];
            if withdrawal_refusal(s, id, subscriber) is Some || before.prepaid_balance <= 0 {
                t == s
            } else {
                &&& changes_one(s, t, id)
                &&& sub.prepaid_balance == 0
                &&& keeps_all_but_the_balance(before, sub)
                &&& t.outbox == s.outbox.push(
                    Effect::Transfer(
                        TokenTransfer {
                            token: before.token,
                            from: m.contract,
                            to: before.subscriber,
                            amount: before.prepaid_balance,
                        },
                    ),
                )
                &&& t == (VaultState { subscriptions: t.subscriptions, outbox: t.outbox, ..s })
            }
        }),
{
    reveal(is_refused);
    let t = after(s, m, Operation::WithdrawSubscriberFunds { subscription_id: id, subscriber });
    assert(t.subscriptions.dom() =~= s.subscriptions.dom());
}

/// A partial refund is refused in this order: before the vault is set up with
/// `NotInitialized`, to anyone but the administrator with `Unauthorized`, of no amount with
/// `InvalidAmount`, of an unknown subscription with `NotFound`, for anyone but its subscriber
/// with `Unauthorized`, and of more than is prepaid with `InsufficientBalance`.
pub proof fn refund_is_checked_in_order(
    s: VaultState,
    admin: Address,
    id: u32,
    subscriber: Address,
    amount: i128,
)
    ensures
        ({
            let refusal = refund_refusal(s, admin, id, subscriber, amount);
            let sub = s.subscriptions[id];
            if s.config.admin is None {
                refusal == Some(Error::NotInitialized)
            } else if s.config.admin->Some_0 != admin {
                refusal == Some(Error::Unauthorized)
            } else if amount <= 0 {
                refusal == Some(Error::InvalidAmount)
            } else if !s.subscriptions.contains_key(id) {
                refusal == Some(Error::NotFound)
            } else if subscriber != sub.subscriber {
                refusal == Some(Error::Unauthorized)
            } else if sub.prepaid_balance < amount {
                refusal == Some(Error::InsufficientBalance)
            } else {
                refusal is None
            }
        }),
{
}

/// A partial refund lowers the prepaid balance by its amount and nothing else of the
/// subscription, pays the amount in the subscription's token to its subscriber and announces
/// it.
pub proof fn refund_lowers_only_the_balance(
    s: VaultState,
    m: Moment,
    admin: Address,
    id: u32,
    subscriber: Address,
    amount: i128,
)
    requires
        s.subscriptions.contains_key(id) ==> s.subscriptions[id].prepaid_balance >= 0,
    ensures
        ({
            let t = after(
                s,
                m,
                Operation::PartialRefund { admin, subscription_id: id, subscriber, amount },
            );
            let before = s.subscriptions[id];
            let sub = t.subscriptions[id];
            if refund_refusal(s, admin, id, subscriber, amount) is Some {
                t == s
            } else {
                &&& changes_one(s, t, id)
                &&& sub.prepaid_balance == before.prepaid_balance - amount
                &&& keeps_all_but_the_balance(before, sub)
                &&& t.outbox == s.outbox.push(
                    Effect::Transfer(
                        TokenTransfer {
                            token: before.token,
                            from: m.contract,
                            to: before.subscriber,
                            amount,
                        },
                    ),
                ).push(
                    Effect::Publish(
                        Event::PartialRefund(
                            PartialRefundEvent {
                                subscription_id: id,
                                subscriber: before.subscriber,
                                amount,
                                timestamp: m.now,
                            },
                        ),
                    ),
                )
                &&& t == (VaultState { subscriptions: t.subscriptions, outbox: t.outbox, ..s })
            }
        }),
{
    reveal(is_refused);
    let t = after(
        s,
        m,
        Operation::PartialRefund { admin, subscription_id: id, subscriber, amount },
    );
    assert(t.subscriptions.dom() =~= s.subscriptions.dom());
}

// ── Limits ───────────────────────────────────────────────────────────────────

/// Only the merchant of a subscription sets its usage limits; they are stored as given and
/// nothing else changes.
pub proof fn usage_limits_are_stored(
    s: VaultState,
    m: Moment,
    merchant: Address,
    id: u32,
    limits: UsageLimits,
)
    ensures
        usage_limits_refusal(s, merchant, id) == if !s.subscriptions.contains_key(id) {
            Some(Error::NotFound)
        } else if s.subscriptions[id].merchant != merchant {
            Some(Error::Unauthorized)
        } else {
            None
        },
        ({
            let t = after(
                s,
                m,
                Operation::ConfigureUsageLimits { merchant, subscription_id: id, limits },
            );
            if s.subscriptions.contains_key(id) && s.subscriptions[id].merchant == merchant {
                &&& t.usage.limits == s.usage.limits.insert(id, limits)
                &&& t == (VaultState {
                    usage: Usage { limits: t.usage.limits, ..s.usage },
                    ..s
                })
            } else {
                t == s
            }
        }),
{
    reveal(is_refused);
}

/// Only the administrator sets a subscriber's credit limit in a token; it is stored as given
/// and nothing else changes.
pub proof fn credit_limit_is_stored(
    s: VaultState,
    m: Moment,
    admin: Address,
    subscriber: Address,
    token: Address,
    credit_limit: i128,
)
    ensures
        ({
            let t = after(
                s,
                m,
                Operation::SetSubscriberCreditLimit { admin, subscriber, token, credit_limit },
            );
            if s.config.admin is Some && s.config.admin->Some_0 == admin {
                &&& t.credit_limits == s.credit_limits.insert(
                    Bucket { holder: subscriber, token },
                    credit_limit,
                )
                &&& t == (VaultState { credit_limits: t.credit_limits, ..s })
            } else {
                t == s
            }
        }),
{
    reveal(is_refused);
}

} // verus!
