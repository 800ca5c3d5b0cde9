//! What charges, batches, plans, limits and pauses promise together.
use crate::admin::{admin_refusal, charged_in_turn, reported};
use crate::charge_core::{
    already_processed, interval_charge, is_chargeable, usage_after, usage_charge,
};
use crate::contract::{execution, usage_execution};
use crate::events::{Effect, TokenTransfer};
use crate::merchant::{is_paused, with_pause, Merchants};
use crate::operation::{after, applied, is_refused, Moment, Operation};
use crate::plan::{
    active_below, from_plan_refusal, is_active_on, migrated, migration_refusal, next_version,
    plan_limit, plan_updated, planned,
};
use crate::soundness::{changes_subscription, is_charge};
use crate::subscription::{
    cancelled_event, creation_refusal, credit_limit, credit_refusal, deposit_refusal,
    deposited, exposure, exposure_below, new_subscription, one_off_charge, refund_refusal,
    refunded, status_refusal, with_status, with_subscription, withdrawal_refusal, withdrawn,
};
use crate::types::{
    Address, BatchChargeResult, Bucket, Bytes32, ChargeExecutionResult, Error, OraclePrice,
    Subscription, SubscriptionStatus, UsageLimits, UsageState,
};
use crate::vault::VaultState;
use vstd::prelude::*;

verus! {

// ── Batches ──────────────────────────────────────────────────────────────────

/// A batch is its charges one after the other: charging a list and then another one is
/// charging both lists joined, with the results joined in the same order.
pub proof fn batches_join(
    s: VaultState,
    first: Seq<u32>,
    second: Seq<u32>,
    now: u64,
    quote: OraclePrice,
)
    ensures
        ({
            let (between, results) = charged_in_turn(s, first, now, quote);
            let (end, more) = charged_in_turn(between, second, now, quote);
            charged_in_turn(s, first + second, now, quote) == (end, results + more)
        }),
    decreases second.len(),
{
    let (between, results) = charged_in_turn(s, first, now, quote);
    if second.len() == 0 {
        assert(first + second =~= first);
        assert(results + Seq::<BatchChargeResult>::empty() =~= results);
    } else {
        batches_join(s, first, second.drop_last(), now, quote);
        assert((first + second).drop_last() =~= first + second.drop_last());
        let (_, before) = charged_in_turn(between, second.drop_last(), now, quote);
        let (end, more) = charged_in_turn(between, second, now, quote);
        assert(results + more =~= (results + before).push(more.last()));
    }
}

/// A batch of one does what charging the subscription alone does, and reports success or
/// the same error.
pub proof fn batch_of_one_is_a_single_charge(
    s: VaultState,
    id: u32,
    now: u64,
    quote: OraclePrice,
)
    ensures
        ({
            let (after, outcome) = interval_charge(s, id, now, None, quote);
            let (end, results) = charged_in_turn(s, seq![id], now, quote);
            &&& end == after
            &&& results == seq![reported(outcome)]
            &&& results[0].success <==> execution(outcome) == Ok::<ChargeExecutionResult, Error>(
                ChargeExecutionResult::Charged,
            )
            &&& results[0].error_code == match execution(outcome) {
                Ok(ChargeExecutionResult::Charged) => 0,
                Ok(ChargeExecutionResult::InsufficientBalance)
                => Error::InsufficientBalance.code(),
                Ok(ChargeExecutionResult::LifetimeCapReached)
                => Error::LifetimeCapReached.code(),
                Err(e) => e.code(),
            }
        }),
{
    assert(seq![id].drop_last() =~= Seq::<u32>::empty());
    let (end, results) = charged_in_turn(s, seq![id], now, quote);
    let (_, outcome) = interval_charge(s, id, now, None, quote);
    assert(charged_in_turn(s, Seq::<u32>::empty(), now, quote).1
        =~= Seq::<BatchChargeResult>::empty());
    assert(results =~= seq![reported(outcome)]);
}

/// Results are positional: there is one for each id, and each is what charging that id
/// reports in the state that the ids before it left.
pub proof fn batch_results_are_positional(
    s: VaultState,
    ids: Seq<u32>,
    now: u64,
    quote: OraclePrice,
    i: int,
)
    requires
        0 <= i < ids.len(),
    ensures
        charged_in_turn(s, ids, now, quote).1.len() == ids.len(),
        charged_in_turn(s, ids, now, quote).1[i] == reported(
            interval_charge(
                charged_in_turn(s, ids.take(i), now, quote).0,
                ids[i],
                now,
                None,
                quote,
            ).1,
        ),
    decreases ids.len(),
{
    lemma_result_count(s, ids.drop_last(), now, quote);
    if i < ids.len() - 1 {
        batch_results_are_positional(s, ids.drop_last(), now, quote, i);
        assert(ids.drop_last().take(i) =~= ids.take(i));
    } else {
        assert(ids.take(i) =~= ids.drop_last());
    }
}

proof fn lemma_result_count(s: VaultState, ids: Seq<u32>, now: u64, quote: OraclePrice)
    ensures
        charged_in_turn(s, ids, now, quote).1.len() == ids.len(),
    decreases ids.len(),
{
    if ids.len() > 0 {
        lemma_result_count(s, ids.drop_last(), now, quote);
    }
}

// ── Failure and replay ───────────────────────────────────────────────────────

/// A charge whose caller gets an error has changed nothing at all.
pub proof fn failed_calls_change_nothing(
    s: VaultState,
    id: u32,
    now: u64,
    quote: OraclePrice,
    usage_amount: i128,
    reference: Seq<u8>,
)
    ensures
        execution(interval_charge(s, id, now, None, quote).1) is Err ==> interval_charge(
            s,
            id,
            now,
            None,
            quote,
        ).0 == s,
        usage_execution(usage_charge(s, id, usage_amount, reference, now).1) is Err
            ==> usage_charge(s, id, usage_amount, reference, now).0 == s,
{
}

/// A billing period is charged once: after a charge that debited the subscription, a charge
/// in the same billing period or an earlier one is refused and changes nothing.
pub proof fn period_is_charged_once(
    s: VaultState,
    id: u32,
    now: u64,
    key: Option<Bytes32>,
    quote: OraclePrice,
    later: u64,
    later_quote: OraclePrice,
)
    requires
        interval_charge(s, id, now, key, quote).1 is Ok,
        !already_processed(s, id, key),
        s.subscriptions[id].interval_seconds != 0,
        later / s.subscriptions[id].interval_seconds <= now
            / s.subscriptions[id].interval_seconds,
    ensures
        ({
            let charged = interval_charge(s, id, now, key, quote).0;
            let (again, outcome) = interval_charge(charged, id, later, None, later_quote);
            &&& again == charged
            &&& outcome == Err::<(), Error>(
                if is_chargeable(charged.subscriptions[id].status) {
                    Error::Replay
                } else {
                    Error::NotActive
                },
            )
        }),
{
}

/// A retry under the same idempotency key succeeds without charging again, as long as the
/// subscription can be charged at all.
pub proof fn retry_with_same_key_is_idle(
    s: VaultState,
    id: u32,
    now: u64,
    key: Bytes32,
    quote: OraclePrice,
    later: u64,
    later_quote: OraclePrice,
)
    requires
        interval_charge(s, id, now, Some(key), quote).1 is Ok,
        is_chargeable(
            interval_charge(s, id, now, Some(key), quote).0.subscriptions[id].status,
        ),
    ensures
        ({
            let charged = interval_charge(s, id, now, Some(key), quote).0;
            interval_charge(charged, id, later, Some(key), later_quote) == (
                charged,
                Ok::<(), Error>(()),
            )
        }),
{
}

/// A usage reference is processed once: charging again under the reference that was charged
/// last fails and changes nothing, at any time and for any amount.
pub proof fn usage_reference_is_charged_once(
    s: VaultState,
    id: u32,
    amount: i128,
    reference: Seq<u8>,
    now: u64,
    amount_again: i128,
    later: u64,
)
    requires
        usage_charge(s, id, amount, reference, now).1 is Ok,
    ensures
        ({
            let charged = usage_charge(s, id, amount, reference, now).0;
            let (again, outcome) = usage_charge(charged, id, amount_again, reference, later);
            &&& again == charged
            &&& outcome is Err
            &&& charged.subscriptions[id].status is Active && 0 < amount_again
                <= charged.subscriptions[id].prepaid_balance ==> outcome == Err::<(), Error>(
                Error::Replay,
            )
        }),
{
}

// ── Usage limits ─────────────────────────────────────────────────────────────

/// A usage charge that the limits let through leaves the subscription within them: no more
/// charges in the rate window and no more usage in the billing period than allowed, and the
/// next charge must keep its distance.
pub proof fn usage_stays_within_limits(
    limits: UsageLimits,
    state: Option<UsageState>,
    interval_seconds: u64,
    amount: i128,
    now: u64,
    next_amount: i128,
    later: u64,
)
    requires
        amount > 0,
        usage_after(Some(limits), state, interval_seconds, amount, now) is Ok,
    ensures
        ({
            let used = usage_after(Some(limits), state, interval_seconds, amount, now)->Ok_0;
            &&& limits.rate_limit_max_calls matches Some(most) ==> used.window_call_count
                <= most
            &&& limits.usage_cap_units matches Some(most) ==> used.current_period_usage_units
                <= most
            &&& later - now < limits.burst_min_interval_secs && limits.burst_min_interval_secs
                > 0 ==> usage_after(
                Some(limits),
                Some(used),
                interval_seconds,
                next_amount,
                later,
            ) == Err::<UsageState, Error>(Error::BurstLimitExceeded)
        }),
{
}

/// Once a rate window is full, every further charge in it is refused.
pub proof fn full_window_refuses(
    limits: UsageLimits,
    used: UsageState,
    interval_seconds: u64,
    amount: i128,
    later: u64,
)
    requires
        limits.rate_limit_max_calls == Some(used.window_call_count),
        later - used.window_start_timestamp < limits.rate_window_secs,
        limits.rate_window_secs > 0,
        later - used.last_usage_timestamp >= limits.burst_min_interval_secs,
    ensures
        usage_after(Some(limits), Some(used), interval_seconds, amount, later) == Err::<
            UsageState,
            Error,
        >(Error::RateLimitExceeded),
{
}

/// A rate window that has expired is followed by one that starts with the charge, and usage
/// in a new billing period starts from nothing.
pub proof fn windows_and_periods_start_anew(
    limits: UsageLimits,
    state: UsageState,
    interval_seconds: u64,
    amount: i128,
    now: u64,
)
    requires
        usage_after(Some(limits), Some(state), interval_seconds, amount, now) is Ok,
    ensures
        ({
            let used = usage_after(
                Some(limits),
                Some(state),
                interval_seconds,
                amount,
                now,
            )->Ok_0;
            &&& now - state.window_start_timestamp >= limits.rate_window_secs ==> {
                &&& used.window_start_timestamp == now
                &&& used.window_call_count == 1
            }
            &&& interval_seconds != 0 && state.period_index != now / interval_seconds
                ==> used.current_period_usage_units == amount
            &&& used.last_usage_timestamp == now
        }),
{
}

// ── Pauses ───────────────────────────────────────────────────────────────────

/// A merchant's pause comes before the subscription's status: while the merchant is paused,
/// every charge of its subscriptions is refused with `MerchantPaused`, whatever the status,
/// and changes nothing.
pub proof fn paused_merchant_is_not_charged_for(
    s: VaultState,
    id: u32,
    now: u64,
    key: Option<Bytes32>,
    quote: OraclePrice,
    amount: i128,
    reference: Seq<u8>,
)
    requires
        s.subscriptions.contains_key(id),
        is_paused(s.merchants, s.subscriptions[id].merchant),
    ensures
        interval_charge(s, id, now, key, quote) == (s, Err::<(), Error>(Error::MerchantPaused)),
        usage_charge(s, id, amount, reference, now) == (
            s,
            Err::<(), Error>(Error::MerchantPaused),
        ),
{
}

/// A merchant's pause is its own: it changes no subscription, no balance and no other
/// merchant's pause, and setting it again does nothing. After it is lifted, everything but
/// the record of the pause is as before.
pub proof fn merchant_pause_is_orthogonal(
    s: VaultState,
    merchant: Address,
    other: Address,
    paused: bool,
    now: u64,
    later: u64,
)
    requires
        other != merchant,
    ensures
        ({
            let t = with_pause(s, merchant, paused, now);
            &&& is_paused(t.merchants, merchant) == paused
            &&& is_paused(t.merchants, other) == is_paused(s.merchants, other)
            &&& with_pause(t, merchant, paused, later) == t
            &&& t == (VaultState {
                merchants: Merchants {
                    paused: t.merchants.paused,
                    ..s.merchants
                },
                outbox: t.outbox,
                ..s
            })
        }),
{
    let t = with_pause(s, merchant, paused, now);
    assert(t =~= (VaultState {
        merchants: Merchants { paused: t.merchants.paused, ..s.merchants },
        outbox: t.outbox,
        ..s
    }));
}

/// A merchant's pause blocks charges and nothing else: deposits, cancellations, pauses and
/// resumptions of subscriptions, withdrawals and refunds do the same whoever is paused.
pub proof fn merchant_pause_blocks_only_charges(
    s: VaultState,
    m: Moment,
    op: Operation,
    paused: Map<Address, bool>,
)
    requires
        op is DepositFunds || op is CancelSubscription || op is PauseSubscription
            || op is ResumeSubscription || op is WithdrawSubscriberFunds || op is PartialRefund
            || op is WithdrawMerchantFunds || op is MerchantRefund,
    ensures
        after(VaultState { merchants: Merchants { paused, ..s.merchants }, ..s }, m, op) == (
        VaultState {
            merchants: Merchants { paused, ..after(s, m, op).merchants },
            ..after(s, m, op)
        }),
{
    let t = VaultState { merchants: Merchants { paused, ..s.merchants }, ..s };
    if let Operation::DepositFunds { subscription_id, .. } = op {
        let sub = s.subscriptions[subscription_id];
        let bucket = Bucket { holder: sub.subscriber, token: sub.token };
        lemma_exposure_of_same_subscriptions(s, t, bucket, s.next_id as nat);
    }
    assert(is_refused(t, m, op) == is_refused(s, m, op)) by {
        reveal(is_refused);
    }
    assert(applied(t, m, op) =~= (VaultState {
        merchants: Merchants { paused, ..applied(s, m, op).merchants },
        ..applied(s, m, op)
    }));
}

proof fn lemma_exposure_of_same_subscriptions(
    s: VaultState,
    t: VaultState,
    bucket: Bucket,
    end: nat,
)
    requires
        t.subscriptions == s.subscriptions,
    ensures
        exposure_below(t, bucket, end) == exposure_below(s, bucket, end),
    decreases end,
{
    if end > 0 {
        lemma_exposure_of_same_subscriptions(s, t, bucket, (end - 1) as nat);
    }
}

/// The emergency stop is a switch: lifting it restores the vault that was stopped, but for
/// what was published, and while it is active every charge, creation and deposit is refused.
pub proof fn emergency_stop_is_a_switch(s: VaultState, m: Moment, later: Moment, admin: Address)
    requires
        admin_refusal(s, admin) is None,
        !s.config.emergency_stop,
    ensures
        ({
            let stopped = after(s, m, Operation::EnableEmergencyStop { admin });
            let resumed = after(stopped, later, Operation::DisableEmergencyStop { admin });
            &&& stopped.config.emergency_stop
            &&& after(stopped, later, Operation::EnableEmergencyStop { admin }) == stopped
            &&& resumed == (VaultState { outbox: resumed.outbox, ..s })
            &&& forall|op: Operation|
                op is ChargeInterval || op is ChargeUsage || op is CreateSubscription
                    || op is DepositFunds ==> #[trigger] after(stopped, later, op) == stopped
        }),
{
    reveal(is_refused);
    let stopped = after(s, m, Operation::EnableEmergencyStop { admin });
    let resumed = after(stopped, later, Operation::DisableEmergencyStop { admin });
    assert(resumed.config == s.config);
    assert(resumed =~= (VaultState { outbox: resumed.outbox, ..s }));
}

// ── Plans ────────────────────────────────────────────────────────────────────

/// A new version of a plan shares the family, the merchant and the token of the version it
/// follows and has the next version number. The update changes no subscription, no link from
/// a subscription to its plan, and no existing plan.
pub proof fn plan_update_is_silent(
    s: VaultState,
    plan_template_id: u32,
    amount: i128,
    interval_seconds: u64,
    usage_enabled: bool,
    lifetime_cap: Option<i128>,
    now: u64,
    other: u32,
)
    requires
        s.plans.contains_key(plan_template_id),
        s.plans[plan_template_id].version < u32::MAX,
        s.next_plan_id < u32::MAX,
    ensures
        ({
            let existing = s.plans[plan_template_id];
            let updated = next_version(
                existing,
                amount,
                interval_seconds,
                usage_enabled,
                lifetime_cap,
            );
            let t = plan_updated(s, plan_template_id, updated, now);
            &&& t.plans[s.next_plan_id] == updated
            &&& updated.template_key == existing.template_key
            &&& updated.merchant == existing.merchant
            &&& updated.token == existing.token
            &&& updated.version == existing.version + 1
            &&& t.subscriptions == s.subscriptions
            &&& t.plan_of == s.plan_of
            &&& other != s.next_plan_id ==> t.plans.get(other) == s.plans.get(other)
        }),
{
}

/// A migration takes over the terms of the new plan and nothing else: what was prepaid and
/// charged, the status, the parties, the token and the time of the last payment stay, and no
/// other subscription changes. The subscription stays in its family and moves to a later
/// version.
pub proof fn migration_preserves_history(
    s: VaultState,
    subscriber: Address,
    id: u32,
    new_plan_id: u32,
    now: u64,
    other: u32,
)
    requires
        migration_refusal(s, subscriber, id, new_plan_id) is None,
    ensures
        ({
            let t = migrated(s, id, new_plan_id, now);
            let before = s.subscriptions[id];
            let after = t.subscriptions[id];
            let plan = s.plans[new_plan_id];
            &&& after.amount == plan.amount
            &&& after.interval_seconds == plan.interval_seconds
            &&& after.usage_enabled == plan.usage_enabled
            &&& after.lifetime_cap == plan.lifetime_cap
            &&& after.prepaid_balance == before.prepaid_balance
            &&& after.lifetime_charged == before.lifetime_charged
            &&& after.status == before.status
            &&& after.token == before.token
            &&& after.merchant == before.merchant
            &&& after.subscriber == before.subscriber
            &&& after.last_payment_timestamp == before.last_payment_timestamp
            &&& after.lifetime_cap matches Some(cap) ==> after.lifetime_charged <= cap
            &&& t.plan_of[id] == new_plan_id
            &&& plan.template_key == s.plans[s.plan_of[id]].template_key
            &&& plan.version > s.plans[s.plan_of[id]].version
            &&& other != id ==> t.subscriptions.get(other) == s.subscriptions.get(other)
        }),
{
}

/// A plan's limit holds: a subscription made from a limited plan leaves its subscriber with
/// no more active subscriptions to the plan than allowed, and other subscribers' counts are
/// unchanged.
pub proof fn plan_limit_is_kept(
    s: VaultState,
    subscriber: Address,
    plan_template_id: u32,
    now: u64,
    other: Address,
)
    requires
        from_plan_refusal(s, subscriber, plan_template_id) is None,
        plan_limit(s, plan_template_id) != 0,
    ensures
        ({
            let t = VaultState {
                plan_of: s.plan_of.insert(s.next_id, plan_template_id),
                ..with_subscription(s, planned(subscriber, s.plans[plan_template_id], now))
            };
            let count = active_below(t, subscriber, plan_template_id, t.next_id as nat);
            &&& count == active_below(s, subscriber, plan_template_id, s.next_id as nat) + 1
            &&& count <= plan_limit(t, plan_template_id)
            &&& other != subscriber ==> active_below(
                t,
                other,
                plan_template_id,
                t.next_id as nat,
            ) == active_below(s, other, plan_template_id, s.next_id as nat)
        }),
{
    let t = VaultState {
        plan_of: s.plan_of.insert(s.next_id, plan_template_id),
        ..with_subscription(s, planned(subscriber, s.plans[plan_template_id], now))
    };
    lemma_same_counts(s, t, subscriber, plan_template_id, s.next_id as nat);
    lemma_same_counts(s, t, other, plan_template_id, s.next_id as nat);
    assert(is_active_on(t, s.next_id, subscriber, plan_template_id));
}

proof fn lemma_same_counts(
    s: VaultState,
    t: VaultState,
    subscriber: Address,
    plan_template_id: u32,
    end: nat,
)
    requires
        end <= s.next_id,
        forall|id: u32|
            id < s.next_id ==> #[trigger] t.subscriptions.get(id) == s.subscriptions.get(id),
        forall|id: u32| id < s.next_id ==> #[trigger] t.plan_of.get(id) == s.plan_of.get(id),
    ensures
        active_below(t, subscriber, plan_template_id, end) == active_below(
            s,
            subscriber,
            plan_template_id,
            end,
        ),
    decreases end,
{
    if end > 0 {
        lemma_same_counts(s, t, subscriber, plan_template_id, (end - 1) as nat);
        let id = (end - 1) as u32;
        assert(t.subscriptions.get(id) == s.subscriptions.get(id));
        assert(t.plan_of.get(id) == s.plan_of.get(id));
    }
}

// ── Credit limits ────────────────────────────────────────────────────────────

/// What a subscription adds to its subscriber's exposure.
pub open spec fn exposure_of(sub: Subscription) -> int {
    sub.prepaid_balance + if sub.status is Active {
        sub.amount as int
    } else {
        0
    }
}

/// A subscriber's exposure in one token through subscriptions with an id below `end`.
pub open spec fn exposure_sum(
    subscriptions: Map<u32, Subscription>,
    bucket: Bucket,
    end: nat,
) -> int
    decreases end,
{
    if end == 0 {
        0
    } else {
        exposure_sum(subscriptions, bucket, (end - 1) as nat) + match subscriptions.get(
            (end - 1) as u32,
        ) {
            Some(sub) => if sub.subscriber == bucket.holder && sub.token == bucket.token {
                exposure_of(sub)
            } else {
                0
            },
            None => 0,
        }
    }
}

proof fn lemma_exposure_is_sum(s: VaultState, bucket: Bucket, end: nat)
    requires
        exposure_below(s, bucket, end) is Ok,
    ensures
        exposure_below(s, bucket, end)->Ok_0 == exposure_sum(s.subscriptions, bucket, end),
    decreases end,
{
    if end > 0 {
        lemma_exposure_is_sum(s, bucket, (end - 1) as nat);
    }
}

proof fn lemma_same_exposure(
    a: Map<u32, Subscription>,
    b: Map<u32, Subscription>,
    bucket: Bucket,
    end: nat,
)
    requires
        end <= u32::MAX,
        forall|id: u32| id < end ==> #[trigger] a.get(id) == b.get(id),
    ensures
        exposure_sum(a, bucket, end) == exposure_sum(b, bucket, end),
    decreases end,
{
    if end > 0 {
        lemma_same_exposure(a, b, bucket, (end - 1) as nat);
        let id = (end - 1) as u32;
        assert(a.get(id) == b.get(id));
    }
}

proof fn lemma_changed_exposure(
    subscriptions: Map<u32, Subscription>,
    id: u32,
    sub: Subscription,
    bucket: Bucket,
    end: nat,
)
    requires
        id < end <= u32::MAX,
        subscriptions.contains_key(id),
        sub.subscriber == bucket.holder,
        sub.token == bucket.token,
        subscriptions[id].subscriber == bucket.holder,
        subscriptions[id].token == bucket.token,
    ensures
        exposure_sum(subscriptions.insert(id, sub), bucket, end) == exposure_sum(
            subscriptions,
            bucket,
            end,
        ) - exposure_of(subscriptions[id]) + exposure_of(sub),
    decreases end,
{
    let changed = subscriptions.insert(id, sub);
    if id == end - 1 {
        lemma_same_exposure(changed, subscriptions, bucket, (end - 1) as nat);
    } else {
        lemma_changed_exposure(subscriptions, id, sub, bucket, (end - 1) as nat);
        assert(changed.get((end - 1) as u32) == subscriptions.get((end - 1) as u32));
    }
}

/// What the vault reports as exposure is the sum of prepaid balances and of the next
/// intervals of active subscriptions.
pub proof fn reported_exposure_is_the_sum(s: VaultState, bucket: Bucket)
    requires
        exposure(s, bucket) is Ok,
    ensures
        exposure(s, bucket)->Ok_0 == exposure_sum(s.subscriptions, bucket, s.next_id as nat),
{
    lemma_exposure_is_sum(s, bucket, s.next_id as nat);
}

/// Credit limits hold when a subscription is created: its amount joins the subscriber's
/// exposure in its token, which stays within the limit where one is set.
pub proof fn creation_keeps_credit_limit(
    s: VaultState,
    subscriber: Address,
    merchant: Address,
    token: Address,
    amount: i128,
    interval_seconds: u64,
    usage_enabled: bool,
    lifetime_cap: Option<i128>,
    now: u64,
)
    requires
        creation_refusal(s, subscriber, token, amount, lifetime_cap) is None,
    ensures
        ({
            let bucket = Bucket { holder: subscriber, token };
            let sub = new_subscription(
                subscriber,
                merchant,
                token,
                amount,
                interval_seconds,
                usage_enabled,
                lifetime_cap,
                now,
            );
            let t = with_subscription(s, sub);
            let sum = exposure_sum(t.subscriptions, bucket, t.next_id as nat);
            &&& sum == exposure_sum(s.subscriptions, bucket, s.next_id as nat) + amount
            &&& credit_limit(s, bucket) != 0 ==> sum <= credit_limit(s, bucket)
        }),
{
    let bucket = Bucket { holder: subscriber, token };
    let sub = new_subscription(
        subscriber,
        merchant,
        token,
        amount,
        interval_seconds,
        usage_enabled,
        lifetime_cap,
        now,
    );
    let t = with_subscription(s, sub);
    lemma_same_exposure(t.subscriptions, s.subscriptions, bucket, s.next_id as nat);
    if credit_limit(s, bucket) != 0 {
        lemma_exposure_is_sum(s, bucket, s.next_id as nat);
    }
}

/// Credit limits hold when funds are deposited: the deposit joins the exposure of the
/// subscription's owner, which stays within the limit where one is set.
pub proof fn deposit_keeps_credit_limit(
    s: VaultState,
    id: u32,
    depositor: Address,
    amount: i128,
    contract: Address,
)
    requires
        id < s.next_id,
        deposit_refusal(s, id, amount) is None,
    ensures
        ({
            let sub = s.subscriptions[id];
            let bucket = Bucket { holder: sub.subscriber, token: sub.token };
            let t = deposited(s, id, depositor, amount, contract);
            let sum = exposure_sum(t.subscriptions, bucket, t.next_id as nat);
            &&& sum == exposure_sum(s.subscriptions, bucket, s.next_id as nat) + amount
            &&& credit_limit(s, bucket) != 0 ==> sum <= credit_limit(s, bucket)
        }),
{
    let sub = s.subscriptions[id];
    let bucket = Bucket { holder: sub.subscriber, token: sub.token };
    let t = deposited(s, id, depositor, amount, contract);
    lemma_changed_exposure(
        s.subscriptions,
        id,
        t.subscriptions[id],
        bucket,
        s.next_id as nat,
    );
    if credit_limit(s, bucket) != 0 {
        lemma_exposure_is_sum(s, bucket, s.next_id as nat);
    }
}

/// Charges, cancellations, pauses, migrations, withdrawals and refunds know no credit limit:
/// whatever limits are set, each of them does the same.
pub proof fn credit_limits_block_only_new_exposure(
    s: VaultState,
    m: Moment,
    op: Operation,
    credit_limits: Map<Bucket, i128>,
)
    requires
        changes_subscription(op) || op is WithdrawMerchantFunds || op is MerchantRefund,
        !(op is DepositFunds),
    ensures
        after(VaultState { credit_limits, ..s }, m, op) == (VaultState {
            credit_limits,
            ..after(s, m, op)
        }),
{
    let t = VaultState { credit_limits, ..s };
    match op {
        Operation::ChargeInterval { subscription_id, idempotency_key, quote } => {
            lemma_interval_charge_knows_no_limit(
                s,
                credit_limits,
                subscription_id,
                m.now,
                idempotency_key,
                quote,
            );
            reveal(is_refused);
        },
        Operation::ChargeUsage { subscription_id, usage_amount, reference } => {
            lemma_usage_charge_knows_no_limit(
                s,
                credit_limits,
                subscription_id,
                usage_amount,
                reference,
                m.now,
            );
            reveal(is_refused);
        },
        Operation::ChargeOneOff { subscription_id, merchant, amount } => {
            lemma_one_off_charge_knows_no_limit(
                s,
                credit_limits,
                subscription_id,
                merchant,
                amount,
                m.now,
            );
            reveal(is_refused);
        },
        _ => {
            lemma_other_changes_know_no_limit(s, m, op, credit_limits);
        },
    }
    assert(after(t, m, op) =~= (VaultState { credit_limits, ..after(s, m, op) }));
}

proof fn lemma_interval_charge_knows_no_limit(
    s: VaultState,
    credit_limits: Map<Bucket, i128>,
    id: u32,
    now: u64,
    key: Option<Bytes32>,
    quote: OraclePrice,
)
    ensures
        ({
            let (after, outcome) = interval_charge(s, id, now, key, quote);
            interval_charge(VaultState { credit_limits, ..s }, id, now, key, quote) == (
                VaultState { credit_limits, ..after },
                outcome,
            )
        }),
{
    let (after, outcome) = interval_charge(s, id, now, key, quote);
    let (other, same) = interval_charge(VaultState { credit_limits, ..s }, id, now, key, quote);
    assert(other =~= (VaultState { credit_limits, ..after }));
}

proof fn lemma_usage_charge_knows_no_limit(
    s: VaultState,
    credit_limits: Map<Bucket, i128>,
    id: u32,
    amount: i128,
    reference: Seq<u8>,
    now: u64,
)
    ensures
        ({
            let (after, outcome) = usage_charge(s, id, amount, reference, now);
            usage_charge(VaultState { credit_limits, ..s }, id, amount, reference, now) == (
                VaultState { credit_limits, ..after },
                outcome,
            )
        }),
{
    let (after, outcome) = usage_charge(s, id, amount, reference, now);
    let (other, same) = usage_charge(
        VaultState { credit_limits, ..s },
        id,
        amount,
        reference,
        now,
    );
    assert(other =~= (VaultState { credit_limits, ..after }));
}

proof fn lemma_one_off_charge_knows_no_limit(
    s: VaultState,
    credit_limits: Map<Bucket, i128>,
    id: u32,
    merchant: Address,
    amount: i128,
    now: u64,
)
    ensures
        ({
            let (after, outcome) = one_off_charge(s, id, merchant, amount, now);
            one_off_charge(VaultState { credit_limits, ..s }, id, merchant, amount, now) == (
                VaultState { credit_limits, ..after },
                outcome,
            )
        }),
{
    let (after, outcome) = one_off_charge(s, id, merchant, amount, now);
    let (other, same) = one_off_charge(
        VaultState { credit_limits, ..s },
        id,
        merchant,
        amount,
        now,
    );
    assert(other =~= (VaultState { credit_limits, ..after }));
}

proof fn lemma_other_changes_know_no_limit(
    s: VaultState,
    m: Moment,
    op: Operation,
    credit_limits: Map<Bucket, i128>,
)
    requires
        changes_subscription(op) || op is WithdrawMerchantFunds || op is MerchantRefund,
        !(op is DepositFunds),
        !is_charge(op),
    ensures
        after(VaultState { credit_limits, ..s }, m, op) == (VaultState {
            credit_limits,
            ..after(s, m, op)
        }),
{
    let t = VaultState { credit_limits, ..s };
    assert(is_refused(t, m, op) == is_refused(s, m, op)) by {
        reveal(is_refused);
    }
    assert(applied(t, m, op) =~= (VaultState { credit_limits, ..applied(s, m, op) }));
}

/// A credit limit of zero is no limit: no added exposure is too large for it.
pub proof fn zero_credit_limit_refuses_nothing(
    s: VaultState,
    m: Moment,
    admin: Address,
    bucket: Bucket,
    added: i128,
)
    requires
        admin_refusal(s, admin) is None,
    ensures
        credit_refusal(
            after(
                s,
                m,
                Operation::SetSubscriberCreditLimit {
                    admin,
                    subscriber: bucket.holder,
                    token: bucket.token,
                    credit_limit: 0,
                },
            ),
            bucket,
            added,
        ) is None,
{
    reveal(is_refused);
}

// ── Refunds ──────────────────────────────────────────────────────────────────

/// Partial refunds add up: two that follow each other leave the balance that one of both
/// amounts would leave, and a second one that exceeds what the first one left is refused.
pub proof fn partial_refunds_add_up(
    s: VaultState,
    admin: Address,
    id: u32,
    subscriber: Address,
    first: i128,
    second: i128,
    contract: Address,
    now: u64,
)
    requires
        refund_refusal(s, admin, id, subscriber, first) is None,
        second > 0,
    ensures
        ({
            let t = refunded(s, id, first, contract, now);
            let left = s.subscriptions[id].prepaid_balance - first;
            &&& t.subscriptions[id].prepaid_balance == left
            &&& left >= 0
            &&& refund_refusal(t, admin, id, subscriber, second) == if second > left {
                Some(Error::InsufficientBalance)
            } else {
                None
            }
            &&& second <= left ==> refunded(t, id, second, contract, now).subscriptions
                == refunded(s, id, (first + second) as i128, contract, now).subscriptions
        }),
{
    let t = refunded(s, id, first, contract, now);
    let left = s.subscriptions[id].prepaid_balance - first;
    if second <= left {
        assert(refunded(t, id, second, contract, now).subscriptions =~= refunded(
            s,
            id,
            (first + second) as i128,
            contract,
            now,
        ).subscriptions);
    }
}

/// Cancelling, refunding a part and withdrawing the rest returns the whole prepaid balance:
/// each step is allowed, the two transfers go to the subscriber and come to what was
/// prepaid, and nothing is left.
pub proof fn cancellation_returns_everything(
    s: VaultState,
    admin: Address,
    id: u32,
    subscriber: Address,
    part: i128,
    contract: Address,
    now: u64,
)
    requires
        status_refusal(s, id, subscriber, SubscriptionStatus::Cancelled) is None,
        refund_refusal(s, admin, id, subscriber, part) is None,
    ensures
        ({
            let sub = s.subscriptions[id];
            let rest = sub.prepaid_balance - part;
            let cancelled = with_status(
                s,
                id,
                SubscriptionStatus::Cancelled,
                cancelled_event(s, id, subscriber),
            );
            let reduced = refunded(cancelled, id, part, contract, now);
            let emptied = withdrawn(reduced, id, subscriber, contract);
            let paid = |amount: int|
                Effect::<Seq<u8>>::Transfer(
                    TokenTransfer {
                        token: sub.token,
                        from: contract,
                        to: subscriber,
                        amount: amount as i128,
                    },
                );
            &&& refund_refusal(cancelled, admin, id, subscriber, part) is None
            &&& withdrawal_refusal(reduced, id, subscriber) is None
            &&& emptied.subscriptions[id].prepaid_balance == 0
            &&& emptied.subscriptions[id].status is Cancelled
            &&& cancelled.outbox.len() == s.outbox.len() + 1
            &&& reduced.outbox.len() == cancelled.outbox.len() + 2
            &&& reduced.outbox[cancelled.outbox.len() as int] == paid(part as int)
            &&& emptied.outbox == if rest > 0 {
                reduced.outbox.push(paid(rest))
            } else {
                reduced.outbox
            }
        }),
{
}

} // verus!
