//! What charges promise, in terms of the fields that they read and change.
use crate::charge_core::{has_period, interval_charge, usage_charge, usage_period};
use crate::contract::{execution, usage_execution};
use crate::events::{
    ChargeFailedEvent, Effect, Event, LifetimeCapReachedEvent, OneOffChargedEvent,
    SubscriptionChargedEvent, UsageStatementEvent,
};
use crate::merchant::Merchants;
use crate::operation::{after, is_refused, Moment, Operation};
use crate::oracle::charge_amount;
use crate::statements::Statements;
use crate::subscription::one_off_charge;
use crate::types::{
    Address, BillingChargeKind, BillingStatement, Bucket, Bytes32, ChargeExecutionResult, Error,
    InsufficientBalanceError, OraclePrice, Subscription, SubscriptionStatus, TokenEarnings,
};
use crate::vault::VaultState;
use vstd::prelude::*;

verus! {

// ── How the laws speak ───────────────────────────────────────────────────────

/// An amount that is zero where it was never set.
pub open spec fn held(amounts: Map<Bucket, i128>, bucket: Bucket) -> int {
    if amounts.contains_key(bucket) {
        amounts[bucket] as int
    } else {
        0
    }
}

/// A number that is zero where it was never set.
pub open spec fn number(numbers: Map<u32, u32>, id: u32) -> int {
    if numbers.contains_key(id) {
        numbers[id] as int
    } else {
        0
    }
}

/// What a bucket has accrued by charges of one kind; nothing, where it has no earnings.
pub open spec fn accrual(
    earnings: Map<Bucket, TokenEarnings>,
    bucket: Bucket,
    kind: BillingChargeKind,
) -> int {
    if !earnings.contains_key(bucket) {
        0
    } else if kind is Interval {
        earnings[bucket].accruals.interval as int
    } else if kind is Usage {
        earnings[bucket].accruals.usage as int
    } else {
        earnings[bucket].accruals.one_off as int
    }
}

/// What was withdrawn from a bucket; nothing, where it has no earnings.
pub open spec fn taken(earnings: Map<Bucket, TokenEarnings>, bucket: Bucket) -> int {
    if earnings.contains_key(bucket) {
        earnings[bucket].withdrawals as int
    } else {
        0
    }
}

/// What was paid back from a bucket; nothing, where it has no earnings.
pub open spec fn paid_back(earnings: Map<Bucket, TokenEarnings>, bucket: Bucket) -> int {
    if earnings.contains_key(bucket) {
        earnings[bucket].refunds as int
    } else {
        0
    }
}

/// `amount` joined one bucket: its balance and its accruals of one kind grew by it, its other
/// figures, every other bucket, pauses and settings are the same.
pub open spec fn joins(
    before: Merchants,
    now: Merchants,
    bucket: Bucket,
    amount: int,
    kind: BillingChargeKind,
) -> bool {
    &&& now == (Merchants { balances: now.balances, earnings: now.earnings, ..before })
    &&& now.balances.dom() == before.balances.dom().insert(bucket)
    &&& now.earnings.dom() == before.earnings.dom().insert(bucket)
    &&& held(now.balances, bucket) == held(before.balances, bucket) + amount
    &&& accrual(now.earnings, bucket, kind) == accrual(before.earnings, bucket, kind) + amount
    &&& forall|other: BillingChargeKind|
        other != kind ==> accrual(now.earnings, bucket, other) == #[trigger] accrual(
            before.earnings,
            bucket,
            other,
        )
    &&& taken(now.earnings, bucket) == taken(before.earnings, bucket)
    &&& paid_back(now.earnings, bucket) == paid_back(before.earnings, bucket)
    &&& forall|other: Bucket|
        #![trigger now.balances[other]]
        other != bucket && before.balances.contains_key(other) ==> now.balances[other]
            == before.balances[other]
    &&& forall|other: Bucket|
        #![trigger now.earnings[other]]
        other != bucket && before.earnings.contains_key(other) ==> now.earnings[other]
            == before.earnings[other]
}

/// The number after another one; the numbers start anew once they are used up.
pub open spec fn following(n: int) -> u32 {
    if n < u32::MAX {
        (n + 1) as u32
    } else {
        0
    }
}

/// The history grew by one row, which stands under the subscription's next number; nothing
/// else of it changed.
pub open spec fn records(before: Statements, now: Statements, row: BillingStatement) -> bool {
    let id = row.subscription_id;
    let next = number(before.next, id);
    let live = number(before.live, id);
    &&& now == (Statements { next: now.next, live: now.live, rows: now.rows, ..before })
    &&& row.sequence == next
    &&& now.rows == before.rows.insert((id, row.sequence), row)
    &&& now.next == before.next.insert(id, following(next))
    &&& now.live == before.live.insert(id, following(live))
}

/// One subscription changed, and no other.
pub open spec fn changes_one(s: VaultState, t: VaultState, id: u32) -> bool {
    &&& t.subscriptions.dom() == s.subscriptions.dom()
    &&& forall|other: u32|
        #![trigger t.subscriptions[other]]
        other != id && s.subscriptions.contains_key(other) ==> t.subscriptions[other]
            == s.subscriptions[other]
}

/// The merchant of a subscription has paused all of its subscriptions.
pub open spec fn is_on_hold(s: VaultState, id: u32) -> bool {
    let merchant = s.subscriptions[id].merchant;
    s.merchants.paused.contains_key(merchant) && s.merchants.paused[merchant]
}

/// The key was the last one processed for the subscription.
pub open spec fn is_retry(s: VaultState, id: u32, key: Option<Bytes32>) -> bool {
    key is Some && s.marks.key.contains_key(id) && s.marks.key[id] == key->Some_0
}

/// The billing period of `now`, or a later one, was charged.
pub open spec fn period_was_charged(s: VaultState, id: u32, now: u64) -> bool {
    s.marks.period.contains_key(id) && now as int / s.subscriptions[id].interval_seconds as int
        <= s.marks.period[id]
}

/// The bucket that charges of a subscription go to.
pub open spec fn earner(sub: Subscription) -> Bucket {
    Bucket { holder: sub.merchant, token: sub.token }
}

// ── Interval charges: when ───────────────────────────────────────────────────

/// An interval charge changes anything only once the interval has passed since the last
/// payment, and a paid one takes place at the present time. Before that, every interval
/// charge changes nothing, and none succeeds but the retry of one that was processed.
pub proof fn interval_must_pass(
    s: VaultState,
    id: u32,
    now: u64,
    key: Option<Bytes32>,
    quote: OraclePrice,
)
    ensures
        ({
            let (t, outcome) = interval_charge(s, id, now, key, quote);
            let sub = s.subscriptions[id];
            &&& t != s ==> s.subscriptions.contains_key(id) && now
                >= sub.last_payment_timestamp + sub.interval_seconds
            &&& outcome is Ok && t != s ==> t.subscriptions[id].last_payment_timestamp == now
            &&& s.subscriptions.contains_key(id) && now < sub.last_payment_timestamp
                + sub.interval_seconds ==> t == s && (outcome is Ok ==> is_retry(s, id, key))
        }),
{
}

/// Two paid intervals of one subscription lie at least an interval apart, and the first one
/// at least an interval after the time that the subscription started to run.
pub proof fn paid_intervals_lie_apart(
    s: VaultState,
    id: u32,
    first: u64,
    first_key: Option<Bytes32>,
    first_quote: OraclePrice,
    second: u64,
    second_key: Option<Bytes32>,
    second_quote: OraclePrice,
)
    requires
        ({
            let (t, outcome) = interval_charge(s, id, first, first_key, first_quote);
            let (u, next) = interval_charge(t, id, second, second_key, second_quote);
            outcome is Ok && t != s && next is Ok && u != t
        }),
    ensures
        second >= first + s.subscriptions[id].interval_seconds,
        first >= s.subscriptions[id].last_payment_timestamp
            + s.subscriptions[id].interval_seconds,
{
    interval_must_pass(s, id, first, first_key, first_quote);
    let t = interval_charge(s, id, first, first_key, first_quote).0;
    interval_must_pass(t, id, second, second_key, second_quote);
    assert(t.subscriptions[id].interval_seconds == s.subscriptions[id].interval_seconds);
}

/// Interval charges are refused, and change nothing, in this order: of an unknown
/// subscription with `NotFound`, of a paused merchant with `MerchantPaused`, in a status
/// other than `Active` and `GracePeriod` with `NotActive`, in a period that was charged with
/// `Replay`, without a price for the reason that there is none, and before the interval has
/// passed with `IntervalNotElapsed`. The retry of a processed charge succeeds and changes
/// nothing.
pub proof fn interval_charge_is_checked_in_order(
    s: VaultState,
    id: u32,
    now: u64,
    key: Option<Bytes32>,
    quote: OraclePrice,
)
    requires
        s.subscriptions[id].interval_seconds != 0,
    ensures
        ({
            let sub = s.subscriptions[id];
            let runs = sub.status is Active || sub.status is GracePeriod;
            let due = sub.last_payment_timestamp + sub.interval_seconds;
            let price = charge_amount(s, sub, quote, now);
            let (t, outcome) = interval_charge(s, id, now, key, quote);
            let refused = |e: Error| t == s && outcome == Err::<(), Error>(e);
            if !s.subscriptions.contains_key(id) {
                refused(Error::NotFound)
            } else if is_on_hold(s, id) {
                refused(Error::MerchantPaused)
            } else if !runs {
                refused(Error::NotActive)
            } else if is_retry(s, id, key) {
                t == s && outcome == Ok::<(), Error>(())
            } else if period_was_charged(s, id, now) {
                refused(Error::Replay)
            } else if price is Err {
                refused(price->Err_0)
            } else if due > u64::MAX {
                refused(Error::Overflow)
            } else if now < due {
                refused(Error::IntervalNotElapsed)
            } else {
                outcome != Err::<(), Error>(Error::IntervalNotElapsed) && outcome != Err::<
                    (),
                    Error,
                >(Error::Replay)
            }
        }),
{
}

// ── Interval charges: what ───────────────────────────────────────────────────

/// Nothing but the balance, the cap and the grace period decides about this charge: the
/// subscription runs, its merchant is not paused, the period is new, the interval has passed
/// and the interval costs `amount`.
pub open spec fn is_due(
    s: VaultState,
    id: u32,
    now: u64,
    key: Option<Bytes32>,
    quote: OraclePrice,
    amount: i128,
) -> bool {
    let sub = s.subscriptions[id];
    &&& s.subscriptions.contains_key(id)
    &&& sub.interval_seconds != 0
    &&& sub.lifetime_charged >= 0
    &&& !is_on_hold(s, id)
    &&& sub.status is Active || sub.status is GracePeriod
    &&& !is_retry(s, id, key)
    &&& !period_was_charged(s, id, now)
    &&& sub.last_payment_timestamp + sub.interval_seconds <= now
    &&& charge_amount(s, sub, quote, now) == Ok::<i128, Error>(amount)
}

/// A lifetime cap leaves room for `amount` more.
pub open spec fn cap_allows(sub: Subscription, amount: int) -> bool {
    sub.lifetime_cap is Some ==> sub.lifetime_charged < sub.lifetime_cap->Some_0
        && sub.lifetime_charged + amount <= sub.lifetime_cap->Some_0
}

/// Crediting `amount` to the subscription's merchant stays within the machine's numbers.
pub open spec fn can_be_credited(
    s: VaultState,
    sub: Subscription,
    amount: int,
    kind: BillingChargeKind,
) -> bool {
    &&& sub.lifetime_charged + amount <= i128::MAX
    &&& held(s.merchants.balances, earner(sub)) + amount <= i128::MAX
    &&& accrual(s.merchants.earnings, earner(sub), kind) + amount <= i128::MAX
}

/// The announcement that a cap has ended a subscription.
pub open spec fn cap_notice(id: u32, cap: i128, charged: int, now: u64) -> Effect<Seq<u8>> {
    Effect::Publish(
        Event::LifetimeCapReached(
            LifetimeCapReachedEvent {
                subscription_id: id,
                lifetime_cap: cap,
                lifetime_charged: charged as i128,
                timestamp: now,
            },
        ),
    )
}

/// A due interval that the balance and the cap cover is paid: the interval's amount leaves
/// the prepaid balance, is counted as charged and joins the merchant's earnings in the
/// subscription's token as an interval charge; the time of payment, the billing period and
/// the idempotency key are noted; a statement records the time since the last payment; the
/// charge is published. The subscription is active again, or cancelled and so published
/// where the cap is used up. Nothing else changes.
pub proof fn due_interval_is_paid(
    s: VaultState,
    id: u32,
    now: u64,
    key: Option<Bytes32>,
    quote: OraclePrice,
    amount: i128,
)
    requires
        is_due(s, id, now, key, quote, amount),
        cap_allows(s.subscriptions[id], amount as int),
        0 <= amount <= s.subscriptions[id].prepaid_balance,
        can_be_credited(
            s,
            s.subscriptions[id],
            amount as int,
            BillingChargeKind::Interval,
        ),
    ensures
        ({
            let sub = s.subscriptions[id];
            let (t, outcome) = interval_charge(s, id, now, key, quote);
            let total = sub.lifetime_charged + amount;
            let used_up = sub.lifetime_cap is Some && total >= sub.lifetime_cap->Some_0;
            let published = s.outbox.push(
                Effect::Publish(
                    Event::SubscriptionCharged(
                        SubscriptionChargedEvent {
                            subscription_id: id,
                            merchant: sub.merchant,
                            amount,
                            lifetime_charged: total as i128,
                        },
                    ),
                ),
            );
            &&& outcome == Ok::<(), Error>(())
            &&& changes_one(s, t, id)
            &&& t.subscriptions[id] == (Subscription {
                prepaid_balance: (sub.prepaid_balance - amount) as i128,
                lifetime_charged: total as i128,
                last_payment_timestamp: now,
                status: if used_up {
                    SubscriptionStatus::Cancelled
                } else {
                    SubscriptionStatus::Active
                },
                ..sub
            })
            &&& joins(
                s.merchants,
                t.merchants,
                earner(sub),
                amount as int,
                BillingChargeKind::Interval,
            )
            &&& t.marks.period == s.marks.period.insert(
                id,
                (now as int / sub.interval_seconds as int) as u64,
            )
            &&& t.marks.key == if key is Some {
                s.marks.key.insert(id, key->Some_0)
            } else {
                s.marks.key
            }
            &&& records(
                s.statements,
                t.statements,
                BillingStatement {
                    subscription_id: id,
                    sequence: number(s.statements.next, id) as u32,
                    charged_at: now,
                    period_start: sub.last_payment_timestamp,
                    period_end: now,
                    amount,
                    merchant: sub.merchant,
                    kind: BillingChargeKind::Interval,
                },
            )
            &&& t.outbox == if used_up {
                published.push(cap_notice(id, sub.lifetime_cap->Some_0, total, now))
            } else {
                published
            }
            &&& t == (VaultState {
                subscriptions: t.subscriptions,
                merchants: t.merchants,
                marks: t.marks,
                statements: t.statements,
                outbox: t.outbox,
                ..s
            })
        }),
{
    let sub = s.subscriptions[id];
    let t = interval_charge(s, id, now, key, quote).0;
    assert(t.subscriptions.dom() =~= s.subscriptions.dom());
    assert(t.merchants.balances.dom() =~= s.merchants.balances.dom().insert(earner(sub)));
    assert(t.merchants.earnings.dom() =~= s.merchants.earnings.dom().insert(earner(sub)));
}

/// A due interval that the balance does not cover, but the cap would, moves no funds: only
/// the status changes, to grace while a grace period after the interval lasts and to
/// underfunded from then on, and the shortage is published. The charge fails with
/// `InsufficientBalance`.
pub proof fn uncovered_interval_only_moves_the_status(
    s: VaultState,
    id: u32,
    now: u64,
    key: Option<Bytes32>,
    quote: OraclePrice,
    amount: i128,
)
    requires
        is_due(s, id, now, key, quote, amount),
        cap_allows(s.subscriptions[id], amount as int),
        s.subscriptions[id].prepaid_balance < amount || amount < 0,
    ensures
        ({
            let sub = s.subscriptions[id];
            let (t, outcome) = interval_charge(s, id, now, key, quote);
            let grace = if s.config.grace_period is Some {
                s.config.grace_period->Some_0 as int
            } else {
                0
            };
            let grace_ends = sub.last_payment_timestamp + sub.interval_seconds + grace;
            let status = if now < grace_ends {
                SubscriptionStatus::GracePeriod
            } else {
                SubscriptionStatus::InsufficientBalance
            };
            if grace_ends > u64::MAX {
                t == s && outcome == Err::<(), Error>(Error::Overflow)
            } else {
                &&& outcome == Err::<(), Error>(Error::InsufficientBalance)
                &&& changes_one(s, t, id)
                &&& t.subscriptions[id] == (Subscription { status, ..sub })
                &&& t.outbox == s.outbox.push(
                    Effect::Publish(
                        Event::ChargeFailed(
                            ChargeFailedEvent {
                                subscription_id: id,
                                merchant: sub.merchant,
                                shortage: InsufficientBalanceError {
                                    available: sub.prepaid_balance,
                                    required: amount,
                                },
                                status,
                                timestamp: now,
                            },
                        ),
                    ),
                )
                &&& t == (VaultState { subscriptions: t.subscriptions, outbox: t.outbox, ..s })
            }
        }),
{
    let t = interval_charge(s, id, now, key, quote).0;
    assert(t.subscriptions.dom() =~= s.subscriptions.dom());
}

/// A due interval for which the cap leaves no room ends the subscription, whatever the
/// balance: it is cancelled and so published, nothing is debited, and the charge fails with
/// `LifetimeCapReached`.
pub proof fn interval_beyond_the_cap_cancels(
    s: VaultState,
    id: u32,
    now: u64,
    key: Option<Bytes32>,
    quote: OraclePrice,
    amount: i128,
)
    requires
        is_due(s, id, now, key, quote, amount),
        !cap_allows(s.subscriptions[id], amount as int),
    ensures
        ({
            let sub = s.subscriptions[id];
            let (t, outcome) = interval_charge(s, id, now, key, quote);
            &&& outcome == Err::<(), Error>(Error::LifetimeCapReached)
            &&& changes_one(s, t, id)
            &&& t.subscriptions[id] == (Subscription {
                status: SubscriptionStatus::Cancelled,
                ..sub
            })
            &&& t.outbox == s.outbox.push(
                cap_notice(
                    id,
                    sub.lifetime_cap->Some_0,
                    sub.lifetime_charged as int,
                    now,
                ),
            )
            &&& t == (VaultState { subscriptions: t.subscriptions, outbox: t.outbox, ..s })
        }),
{
    let t = interval_charge(s, id, now, key, quote).0;
    assert(t.subscriptions.dom() =~= s.subscriptions.dom());
}

/// A due interval that could be paid but whose credit would leave the machine's numbers
/// fails with `Overflow` and changes nothing.
pub proof fn interval_that_cannot_be_credited_is_refused(
    s: VaultState,
    id: u32,
    now: u64,
    key: Option<Bytes32>,
    quote: OraclePrice,
    amount: i128,
)
    requires
        is_due(s, id, now, key, quote, amount),
        cap_allows(s.subscriptions[id], amount as int),
        0 <= amount <= s.subscriptions[id].prepaid_balance,
        !can_be_credited(
            s,
            s.subscriptions[id],
            amount as int,
            BillingChargeKind::Interval,
        ),
    ensures
        interval_charge(s, id, now, key, quote) == (s, Err::<(), Error>(Error::Overflow)),
{
}

// ── Usage charges ────────────────────────────────────────────────────────────

/// A usage charge moves funds only of an active subscription: for a subscription in any
/// other status, of a merchant that is not paused, it fails with `NotActive` and changes
/// nothing.
pub proof fn only_active_subscriptions_pay_for_usage(
    s: VaultState,
    id: u32,
    amount: i128,
    reference: Seq<u8>,
    now: u64,
)
    ensures
        ({
            let sub = s.subscriptions[id];
            let (t, outcome) = usage_charge(s, id, amount, reference, now);
            &&& t != s || outcome is Ok ==> s.subscriptions.contains_key(id) && sub.status
                == SubscriptionStatus::Active && !is_on_hold(s, id)
            &&& s.subscriptions.contains_key(id) && !is_on_hold(s, id) && sub.status
                != SubscriptionStatus::Active ==> t == s && outcome == Err::<(), Error>(
                Error::NotActive,
            )
        }),
{
}

/// Usage charges are refused, and change nothing, in this order: of an unknown subscription
/// with `NotFound`, of a paused merchant with `MerchantPaused`, of one that is not active
/// with `NotActive`, of one that is not metered with `UsageNotEnabled`, of no amount with
/// `InvalidAmount`, of more than is prepaid with `InsufficientPrepaidBalance`, and under the
/// reference that was used last with `Replay`.
pub proof fn usage_charge_is_checked_in_order(
    s: VaultState,
    id: u32,
    amount: i128,
    reference: Seq<u8>,
    now: u64,
)
    ensures
        ({
            let sub = s.subscriptions[id];
            let (t, outcome) = usage_charge(s, id, amount, reference, now);
            let refused = |e: Error| t == s && outcome == Err::<(), Error>(e);
            if !s.subscriptions.contains_key(id) {
                refused(Error::NotFound)
            } else if is_on_hold(s, id) {
                refused(Error::MerchantPaused)
            } else if sub.status != SubscriptionStatus::Active {
                refused(Error::NotActive)
            } else if !sub.usage_enabled {
                refused(Error::UsageNotEnabled)
            } else if amount <= 0 {
                refused(Error::InvalidAmount)
            } else if amount > sub.prepaid_balance {
                refused(Error::InsufficientPrepaidBalance)
            } else if s.usage.reference.contains_key(id) && s.usage.reference[id] == reference {
                refused(Error::Replay)
            } else {
                outcome != Err::<(), Error>(Error::Replay) && outcome != Err::<(), Error>(
                    Error::InsufficientPrepaidBalance,
                )
            }
        }),
{
}

/// Nothing but the usage limits and the lifetime cap decides about this charge.
pub open spec fn is_billable(s: VaultState, id: u32, amount: i128, reference: Seq<u8>) -> bool {
    let sub = s.subscriptions[id];
    &&& s.subscriptions.contains_key(id)
    &&& !is_on_hold(s, id)
    &&& sub.status == SubscriptionStatus::Active
    &&& sub.usage_enabled
    &&& 0 < amount <= sub.prepaid_balance
    &&& !(s.usage.reference.contains_key(id) && s.usage.reference[id] == reference)
}

/// Seconds since an earlier time; none where the clock stands before it.
pub open spec fn seconds_after(earlier: u64, now: u64) -> int {
    if now < earlier {
        0
    } else {
        now - earlier
    }
}

/// A usage charge comes sooner after the last one than the limits allow.
pub open spec fn comes_too_soon(s: VaultState, id: u32, now: u64) -> bool {
    &&& s.usage.limits.contains_key(id)
    &&& s.usage.state.contains_key(id)
    &&& seconds_after(s.usage.state[id].last_usage_timestamp, now)
        < s.usage.limits[id].burst_min_interval_secs
}

/// A rate window is open at `now`: one was started, and its length has not passed.
pub open spec fn window_is_open(s: VaultState, id: u32, now: u64) -> bool {
    &&& s.usage.limits.contains_key(id)
    &&& s.usage.state.contains_key(id)
    &&& seconds_after(s.usage.state[id].window_start_timestamp, now)
        < s.usage.limits[id].rate_window_secs
}

/// Usage charges that the open rate window has seen; none where no window is open.
pub open spec fn calls_in_window(s: VaultState, id: u32, now: u64) -> int {
    if window_is_open(s, id, now) {
        s.usage.state[id].window_call_count as int
    } else {
        0
    }
}

/// The rate window has seen as many charges as the limits allow.
pub open spec fn comes_too_often(s: VaultState, id: u32, now: u64) -> bool {
    &&& s.usage.limits.contains_key(id)
    &&& s.usage.limits[id].rate_limit_max_calls is Some
    &&& calls_in_window(s, id, now) >= s.usage.limits[id].rate_limit_max_calls->Some_0
}

/// The billing period of `now`. A subscription without an interval has one each second.
pub open spec fn period_at(s: VaultState, id: u32, now: u64) -> int {
    let interval = s.subscriptions[id].interval_seconds;
    if interval == 0 {
        now as int
    } else {
        now as int / interval as int
    }
}

/// What was charged for usage in the billing period of `now`.
pub open spec fn used_in_period(s: VaultState, id: u32, now: u64) -> int {
    if s.usage.state.contains_key(id) && s.usage.state[id].period_index == period_at(s, id, now) {
        s.usage.state[id].current_period_usage_units as int
    } else {
        0
    }
}

/// With `amount`, the usage of the billing period would pass its limit.
pub open spec fn is_too_much(s: VaultState, id: u32, amount: int, now: u64) -> bool {
    &&& s.usage.limits.contains_key(id)
    &&& s.usage.limits[id].usage_cap_units is Some
    &&& used_in_period(s, id, now) + amount > s.usage.limits[id].usage_cap_units->Some_0
}

/// The usage limits refuse a charge that comes too soon after the last one, then one that
/// comes too often in the rate window, then one that takes too much in the billing period;
/// each refusal changes nothing. No other charge is refused for a limit.
pub proof fn usage_limits_hold(
    s: VaultState,
    id: u32,
    amount: i128,
    reference: Seq<u8>,
    now: u64,
)
    requires
        is_billable(s, id, amount, reference),
    ensures
        ({
            let (t, outcome) = usage_charge(s, id, amount, reference, now);
            let refused = |e: Error| t == s && outcome == Err::<(), Error>(e);
            if comes_too_soon(s, id, now) {
                refused(Error::BurstLimitExceeded)
            } else if comes_too_often(s, id, now) {
                refused(Error::RateLimitExceeded)
            } else if used_in_period(s, id, now) + amount > i128::MAX {
                refused(Error::Overflow)
            } else if is_too_much(s, id, amount as int, now) {
                refused(Error::UsageCapExceeded)
            } else {
                outcome is Ok || outcome == Err::<(), Error>(Error::Overflow) || outcome
                    == Err::<(), Error>(Error::LifetimeCapReached)
            }
        }),
{
    lemma_period(s, id, now);
}

proof fn lemma_period(s: VaultState, id: u32, now: u64)
    ensures
        usage_period(s.subscriptions[id].interval_seconds, now) == period_at(s, id, now),
{
    let interval = s.subscriptions[id].interval_seconds;
    if interval != 0 {
        assert(0 <= now as int / interval as int <= now) by (nonlinear_arith)
            requires
                interval > 0,
                now >= 0,
        ;
    }
}

/// A usage charge that the limits let through and the cap covers is paid: the amount leaves
/// the prepaid balance, is counted as charged and joins the merchant's earnings in the
/// subscription's token as a usage charge; the reference is noted; a statement and an event
/// record the charge at its time. The subscription is cancelled and so published where the
/// cap is used up, else underfunded where nothing is left of the balance, else as it was. The
/// time of the last payment and all terms stay. Nothing else changes but the usage counts.
pub proof fn billable_usage_is_paid(
    s: VaultState,
    id: u32,
    amount: i128,
    reference: Seq<u8>,
    now: u64,
)
    requires
        is_billable(s, id, amount, reference),
        !comes_too_soon(s, id, now),
        !comes_too_often(s, id, now),
        !is_too_much(s, id, amount as int, now),
        used_in_period(s, id, now) + amount <= i128::MAX,
        s.subscriptions[id].lifetime_cap is Some ==> s.subscriptions[id].lifetime_charged + amount
            <= s.subscriptions[id].lifetime_cap->Some_0,
        can_be_credited(s, s.subscriptions[id], amount as int, BillingChargeKind::Usage),
    ensures
        ({
            let sub = s.subscriptions[id];
            let (t, outcome) = usage_charge(s, id, amount, reference, now);
            let total = sub.lifetime_charged + amount;
            let used_up = sub.lifetime_cap is Some && total >= sub.lifetime_cap->Some_0;
            let published = s.outbox.push(
                Effect::Publish(
                    Event::UsageStatement(
                        UsageStatementEvent {
                            subscription_id: id,
                            merchant: sub.merchant,
                            token: sub.token,
                            usage_amount: amount,
                            reference,
                            timestamp: now,
                        },
                    ),
                ),
            );
            &&& outcome == Ok::<(), Error>(())
            &&& changes_one(s, t, id)
            &&& t.subscriptions[id] == (Subscription {
                prepaid_balance: (sub.prepaid_balance - amount) as i128,
                lifetime_charged: total as i128,
                status: if used_up {
                    SubscriptionStatus::Cancelled
                } else if sub.prepaid_balance == amount {
                    SubscriptionStatus::InsufficientBalance
                } else {
                    SubscriptionStatus::Active
                },
                ..sub
            })
            &&& joins(
                s.merchants,
                t.merchants,
                earner(sub),
                amount as int,
                BillingChargeKind::Usage,
            )
            &&& t.usage.reference == s.usage.reference.insert(id, reference)
            &&& t.usage.state == s.usage.state.insert(id, t.usage.state[id])
            &&& t.usage.limits == s.usage.limits
            &&& records(
                s.statements,
                t.statements,
                BillingStatement {
                    subscription_id: id,
                    sequence: number(s.statements.next, id) as u32,
                    charged_at: now,
                    period_start: now,
                    period_end: now,
                    amount,
                    merchant: sub.merchant,
                    kind: BillingChargeKind::Usage,
                },
            )
            &&& t.outbox == if used_up {
                published.push(cap_notice(id, sub.lifetime_cap->Some_0, total, now))
            } else {
                published
            }
            &&& t == (VaultState {
                subscriptions: t.subscriptions,
                merchants: t.merchants,
                usage: t.usage,
                statements: t.statements,
                outbox: t.outbox,
                ..s
            })
        }),
{
    let sub = s.subscriptions[id];
    let t = usage_charge(s, id, amount, reference, now).0;
    lemma_period(s, id, now);
    assert(t.subscriptions.dom() =~= s.subscriptions.dom());
    assert(t.merchants.balances.dom() =~= s.merchants.balances.dom().insert(earner(sub)));
    assert(t.merchants.earnings.dom() =~= s.merchants.earnings.dom().insert(earner(sub)));
}

/// A usage charge that is paid is counted: it is the last one, one more in the rate window
/// (which opens with it where none is open) and its amount is added to the usage of its
/// billing period.
pub proof fn paid_usage_is_counted(
    s: VaultState,
    id: u32,
    amount: i128,
    reference: Seq<u8>,
    now: u64,
)
    requires
        usage_charge(s, id, amount, reference, now).1 is Ok,
    ensures
        ({
            let t = usage_charge(s, id, amount, reference, now).0;
            let counts = t.usage.state[id];
            &&& t.usage.state.contains_key(id)
            &&& counts.last_usage_timestamp == now
            &&& counts.window_start_timestamp == if window_is_open(s, id, now) {
                s.usage.state[id].window_start_timestamp
            } else {
                now
            }
            &&& counts.window_call_count == if calls_in_window(s, id, now) < u32::MAX {
                calls_in_window(s, id, now) + 1
            } else {
                u32::MAX as int
            }
            &&& counts.period_index == period_at(s, id, now)
            &&& counts.current_period_usage_units == used_in_period(s, id, now) + amount
        }),
{
    lemma_period(s, id, now);
}

/// A usage charge that the limits let through but for which the cap leaves no room ends the
/// subscription: it is cancelled and so published, nothing is debited or counted, and the
/// charge fails with `LifetimeCapReached`.
pub proof fn usage_beyond_the_cap_cancels(
    s: VaultState,
    id: u32,
    amount: i128,
    reference: Seq<u8>,
    now: u64,
)
    requires
        is_billable(s, id, amount, reference),
        !comes_too_soon(s, id, now),
        !comes_too_often(s, id, now),
        !is_too_much(s, id, amount as int, now),
        used_in_period(s, id, now) + amount <= i128::MAX,
        s.subscriptions[id].lifetime_charged + amount <= i128::MAX,
        s.subscriptions[id].lifetime_cap is Some,
        s.subscriptions[id].lifetime_charged + amount > s.subscriptions[id].lifetime_cap->Some_0,
    ensures
        ({
            let sub = s.subscriptions[id];
            let (t, outcome) = usage_charge(s, id, amount, reference, now);
            &&& outcome == Err::<(), Error>(Error::LifetimeCapReached)
            &&& changes_one(s, t, id)
            &&& t.subscriptions[id] == (Subscription {
                status: SubscriptionStatus::Cancelled,
                ..sub
            })
            &&& t.outbox == s.outbox.push(
                cap_notice(
                    id,
                    sub.lifetime_cap->Some_0,
                    sub.lifetime_charged as int,
                    now,
                ),
            )
            &&& t == (VaultState { subscriptions: t.subscriptions, outbox: t.outbox, ..s })
        }),
{
    let t = usage_charge(s, id, amount, reference, now).0;
    lemma_period(s, id, now);
    assert(t.subscriptions.dom() =~= s.subscriptions.dom());
}

/// A usage charge that the limits let through, but whose credit would leave the machine's
/// numbers, fails with `Overflow` and changes nothing.
pub proof fn usage_that_cannot_be_credited_is_refused(
    s: VaultState,
    id: u32,
    amount: i128,
    reference: Seq<u8>,
    now: u64,
)
    requires
        is_billable(s, id, amount, reference),
        !comes_too_soon(s, id, now),
        !comes_too_often(s, id, now),
        !is_too_much(s, id, amount as int, now),
        used_in_period(s, id, now) + amount <= i128::MAX,
        s.subscriptions[id].lifetime_charged + amount > i128::MAX || (
        s.subscriptions[id].lifetime_cap is Some ==> s.subscriptions[id].lifetime_charged + amount
            <= s.subscriptions[id].lifetime_cap->Some_0),
        !can_be_credited(s, s.subscriptions[id], amount as int, BillingChargeKind::Usage),
    ensures
        usage_charge(s, id, amount, reference, now) == (s, Err::<(), Error>(Error::Overflow)),
{
    lemma_period(s, id, now);
}

// ── One-off charges ──────────────────────────────────────────────────────────

/// A one-off charge changes nothing of the subscription but the prepaid balance and the
/// charged total, and nothing of any other: status, time of the last payment, terms and
/// parties are the same before and after. In particular a paused subscription stays paused.
pub proof fn one_off_charge_keeps_the_subscription(
    s: VaultState,
    id: u32,
    merchant: Address,
    amount: i128,
    now: u64,
)
    ensures
        ({
            let t = one_off_charge(s, id, merchant, amount, now).0;
            let before = s.subscriptions[id];
            let after = t.subscriptions[id];
            &&& changes_one(s, t, id)
            &&& after.status == before.status
            &&& after.last_payment_timestamp == before.last_payment_timestamp
            &&& after.subscriber == before.subscriber
            &&& after.merchant == before.merchant
            &&& after.token == before.token
            &&& after.amount == before.amount
            &&& after.interval_seconds == before.interval_seconds
            &&& after.usage_enabled == before.usage_enabled
            &&& after.lifetime_cap == before.lifetime_cap
        }),
{
    let t = one_off_charge(s, id, merchant, amount, now).0;
    assert(t.subscriptions.dom() =~= s.subscriptions.dom());
}

/// One-off charges are refused, and change nothing, in this order: of an unknown subscription
/// with `NotFound`, by anyone but its merchant with `Unauthorized`, of one that is neither
/// active nor paused with `NotActive`, of no amount with `InvalidAmount`, of more than is
/// prepaid with `InsufficientPrepaidBalance`, and beyond the cap with `LifetimeCapReached`.
pub proof fn one_off_charge_is_checked_in_order(
    s: VaultState,
    id: u32,
    merchant: Address,
    amount: i128,
    now: u64,
)
    ensures
        ({
            let sub = s.subscriptions[id];
            let (t, outcome) = one_off_charge(s, id, merchant, amount, now);
            let refused = |e: Error| t == s && outcome == Err::<(), Error>(e);
            if !s.subscriptions.contains_key(id) {
                refused(Error::NotFound)
            } else if merchant != sub.merchant {
                refused(Error::Unauthorized)
            } else if sub.status != SubscriptionStatus::Active && sub.status
                != SubscriptionStatus::Paused {
                refused(Error::NotActive)
            } else if amount <= 0 {
                refused(Error::InvalidAmount)
            } else if amount > sub.prepaid_balance {
                refused(Error::InsufficientPrepaidBalance)
            } else if sub.lifetime_charged + amount > i128::MAX {
                refused(Error::Overflow)
            } else if sub.lifetime_cap is Some && sub.lifetime_charged + amount
                > sub.lifetime_cap->Some_0 {
                refused(Error::LifetimeCapReached)
            } else if !can_be_credited(s, sub, amount as int, BillingChargeKind::OneOff) {
                refused(Error::Overflow)
            } else {
                outcome == Ok::<(), Error>(())
            }
        }),
{
}

/// A one-off charge that succeeds is paid: the amount leaves the prepaid balance, is counted
/// as charged and joins the merchant's earnings in the subscription's token as a one-off
/// charge; a statement and an event record it. Nothing else changes.
pub proof fn one_off_charge_is_paid(
    s: VaultState,
    id: u32,
    merchant: Address,
    amount: i128,
    now: u64,
)
    requires
        one_off_charge(s, id, merchant, amount, now).1 is Ok,
    ensures
        ({
            let sub = s.subscriptions[id];
            let t = one_off_charge(s, id, merchant, amount, now).0;
            &&& s.subscriptions.contains_key(id)
            &&& sub.merchant == merchant
            &&& t.subscriptions[id].prepaid_balance == sub.prepaid_balance - amount
            &&& t.subscriptions[id].lifetime_charged == sub.lifetime_charged + amount
            &&& joins(
                s.merchants,
                t.merchants,
                earner(sub),
                amount as int,
                BillingChargeKind::OneOff,
            )
            &&& records(
                s.statements,
                t.statements,
                BillingStatement {
                    subscription_id: id,
                    sequence: number(s.statements.next, id) as u32,
                    charged_at: now,
                    period_start: now,
                    period_end: now,
                    amount,
                    merchant,
                    kind: BillingChargeKind::OneOff,
                },
            )
            &&& t.outbox == s.outbox.push(
                Effect::Publish(
                    Event::OneOffCharged(
                        OneOffChargedEvent { subscription_id: id, merchant, amount },
                    ),
                ),
            )
            &&& t == (VaultState {
                subscriptions: t.subscriptions,
                merchants: t.merchants,
                statements: t.statements,
                outbox: t.outbox,
                ..s
            })
        }),
{
    let sub = s.subscriptions[id];
    let t = one_off_charge(s, id, merchant, amount, now).0;
    assert(t.merchants.balances.dom() =~= s.merchants.balances.dom().insert(earner(sub)));
    assert(t.merchants.earnings.dom() =~= s.merchants.earnings.dom().insert(earner(sub)));
}

// ── Charges as operations ────────────────────────────────────────────────────

/// A charge takes place at the present time, of the subscription and for the amount that it
/// names. Interval and usage charges wait while the vault is stopped; one-off charges do not.
pub proof fn charges_take_place_now(
    s: VaultState,
    m: Moment,
    id: u32,
    key: Option<Bytes32>,
    quote: OraclePrice,
    amount: i128,
    reference: Seq<u8>,
    merchant: Address,
)
    ensures
        after(
            s,
            m,
            Operation::ChargeInterval { subscription_id: id, idempotency_key: key, quote },
        ) == if s.config.emergency_stop {
            s
        } else {
            interval_charge(s, id, m.now, key, quote).0
        },
        after(
            s,
            m,
            Operation::ChargeUsage { subscription_id: id, usage_amount: amount, reference },
        ) == if s.config.emergency_stop {
            s
        } else {
            usage_charge(s, id, amount, reference, m.now).0
        },
        after(s, m, Operation::ChargeOneOff { subscription_id: id, merchant, amount })
            == one_off_charge(s, id, merchant, amount, m.now).0,
{
    reveal(is_refused);
}

/// An interval charge asks for a billing interval only of a subscription that runs, of a
/// merchant that is not paused.
pub proof fn only_running_subscriptions_need_an_interval(s: VaultState, id: u32)
    ensures
        has_period(s, id) <==> {
            ||| !s.subscriptions.contains_key(id)
            ||| s.subscriptions[id].interval_seconds > 0
            ||| is_on_hold(s, id)
            ||| s.subscriptions[id].status != SubscriptionStatus::Active
                && s.subscriptions[id].status != SubscriptionStatus::GracePeriod
        },
{
}

// ── What callers are told ────────────────────────────────────────────────────

/// The caller of an interval charge learns of a payment, of a balance that does not cover it
/// and of a cap without room as of three results, and of everything else as of an error.
pub proof fn interval_result_is_told(outcome: Result<(), Error>)
    ensures
        ({
            let told = execution(outcome);
            &&& told == Ok::<ChargeExecutionResult, Error>(ChargeExecutionResult::Charged)
                <==> outcome is Ok
            &&& told == Ok::<ChargeExecutionResult, Error>(
                ChargeExecutionResult::InsufficientBalance,
            ) <==> outcome == Err::<(), Error>(Error::InsufficientBalance)
            &&& told == Ok::<ChargeExecutionResult, Error>(
                ChargeExecutionResult::LifetimeCapReached,
            ) <==> outcome == Err::<(), Error>(Error::LifetimeCapReached)
            &&& told is Err ==> outcome is Err && told->Err_0 == outcome->Err_0
        }),
{
}

/// The caller of a usage charge learns every error, but for a cap without room, which ends
/// the subscription and is not an error.
pub proof fn usage_result_is_told(outcome: Result<(), Error>)
    ensures
        usage_execution(outcome) is Ok <==> outcome is Ok || outcome == Err::<(), Error>(
            Error::LifetimeCapReached,
        ),
        usage_execution(outcome) is Err ==> usage_execution(outcome) == outcome,
{
}

} // verus!
