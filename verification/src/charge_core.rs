//! Single charge logic (no auth). Used by charge_subscription and batch_charge.
//!
//! A charge runs only when status is Active or GracePeriod; on insufficient balance the
//! subscription transitions to GracePeriod or InsufficientBalance. On lifetime cap
//! exhaustion the subscription is cancelled (terminal state).
//!
//! # Replay protection and idempotency
//!
//! - **Period-based key**: the last charged billing period is recorded per subscription. A
//!   charge for the same period is refused with `Replay`.
//! - **Optional idempotency key**: one key is stored per subscription. A second call with
//!   the same key succeeds without debiting again.
//!
//! # No transfers
//!
//! Charges move balances inside the vault; they ask for no token transfer.
use crate::admin::get_grace_period;
use crate::events::{
    ChargeFailedEvent, Effect, Event, LifetimeCapReachedEvent, SubscriptionChargedEvent,
    UsageStatementEvent,
};
use crate::merchant::{credit_merchant_balance_for_token, credited, is_paused};
use crate::oracle::{charge_amount, resolve_charge_amount};
use crate::queries::get_subscription;
use crate::safe_math::{lowered_balance, safe_add, safe_sub_balance};
use crate::state_machine::validate_status_transition;
use crate::statements::{append_statement, statement_row, with_statement};
use crate::tables::{copy_text, lemma_viewed_insert, same_text};
use crate::types::{
    BillingChargeKind, Bucket, Bytes32, Error, InsufficientBalanceError, OraclePrice,
    Subscription, SubscriptionStatus, UsageLimits, UsageState,
};
use crate::vault::{ChargeMarks, SubscriptionVault, Usage, VaultState};
use vstd::prelude::*;

verus! {

/// Interval charges run on active subscriptions and on those in grace.
pub open spec fn is_chargeable(status: SubscriptionStatus) -> bool {
    status is Active || status is GracePeriod
}

/// A charge that gets past the merchant's pause and the status divides by the billing
/// interval, which must then not be zero.
pub open spec fn has_period(s: VaultState, subscription_id: u32) -> bool {
    s.subscriptions.get(subscription_id) matches Some(sub) ==> {
        ||| sub.interval_seconds != 0
        ||| is_paused(s.merchants, sub.merchant)
        ||| !is_chargeable(sub.status)
    }
}

/// The same idempotency key was processed last.
pub open spec fn already_processed(
    s: VaultState,
    subscription_id: u32,
    idempotency_key: Option<Bytes32>,
) -> bool {
    idempotency_key is Some && s.marks.key.get(subscription_id) == idempotency_key
}

/// The billing period, or a later one, was charged before.
pub open spec fn already_charged(s: VaultState, subscription_id: u32, period: u64) -> bool {
    s.marks.period.get(subscription_id) matches Some(charged) && period <= charged
}

/// A lifetime cap leaves no room for a charge of `amount`.
pub open spec fn exceeds_cap(sub: Subscription, amount: i128) -> bool {
    match sub.lifetime_cap {
        Some(cap) => {
            let room = cap - sub.lifetime_charged;
            room <= 0 || room > i128::MAX || amount > room
        },
        None => false,
    }
}

/// A lifetime cap is used up.
pub open spec fn cap_is_reached(sub: Subscription) -> bool {
    sub.lifetime_cap matches Some(cap) && sub.lifetime_charged >= cap
}

/// What is published when a lifetime cap ends a subscription.
pub open spec fn cap_event(subscription_id: u32, sub: Subscription, now: u64) -> Effect<Seq<u8>> {
    Effect::Publish(
        Event::LifetimeCapReached(
            LifetimeCapReachedEvent {
                subscription_id,
                lifetime_cap: sub.lifetime_cap->Some_0,
                lifetime_charged: sub.lifetime_charged,
                timestamp: now,
            },
        ),
    )
}

/// The state in which a subscription was cancelled because its cap leaves no room.
pub open spec fn cancelled_by_cap(s: VaultState, subscription_id: u32, now: u64) -> VaultState {
    let sub = s.subscriptions[subscription_id];
    VaultState {
        subscriptions: s.subscriptions.insert(
            subscription_id,
            Subscription { status: SubscriptionStatus::Cancelled, ..sub },
        ),
        outbox: s.outbox.push(cap_event(subscription_id, sub, now)),
        ..s
    }
}

/// What a charge does that the prepaid balance does not cover: the subscription goes into
/// grace while the grace period lasts, and becomes underfunded after it.
pub open spec fn underfunded(
    s: VaultState,
    subscription_id: u32,
    amount: i128,
    now: u64,
) -> (VaultState, Result<(), Error>) {
    let sub = s.subscriptions[subscription_id];
    let grace = match s.config.grace_period {
        Some(grace) => grace,
        None => 0,
    };
    let grace_expires = sub.last_payment_timestamp + sub.interval_seconds + grace;
    let status = if grace > 0 && now < grace_expires {
        SubscriptionStatus::GracePeriod
    } else {
        SubscriptionStatus::InsufficientBalance
    };
    if grace_expires > u64::MAX {
        (s, Err(Error::Overflow))
    } else {
        (
            VaultState {
                subscriptions: s.subscriptions.insert(
                    subscription_id,
                    Subscription { status, ..sub },
                ),
                outbox: s.outbox.push(
                    Effect::Publish(
                        Event::ChargeFailed(
                            ChargeFailedEvent {
                                subscription_id,
                                merchant: sub.merchant,
                                shortage: InsufficientBalanceError {
                                    available: sub.prepaid_balance,
                                    required: amount,
                                },
                                status,
                                timestamp: now,
                            },
                        ),
                    ),
                ),
                ..s
            },
            Err(Error::InsufficientBalance),
        )
    }
}

/// A subscription after an interval of it was paid.
pub open spec fn after_interval(sub: Subscription, amount: i128, now: u64) -> Subscription {
    let paid = Subscription {
        prepaid_balance: (sub.prepaid_balance - amount) as i128,
        last_payment_timestamp: now,
        lifetime_charged: (sub.lifetime_charged + amount) as i128,
        ..sub
    };
    Subscription {
        status: if cap_is_reached(paid) {
            SubscriptionStatus::Cancelled
        } else {
            SubscriptionStatus::Active
        },
        ..paid
    }
}

/// What a charge does that the prepaid balance covers.
pub open spec fn paid(
    s: VaultState,
    subscription_id: u32,
    amount: i128,
    now: u64,
    idempotency_key: Option<Bytes32>,
) -> (VaultState, Result<(), Error>) {
    let sub = s.subscriptions[subscription_id];
    let after = after_interval(sub, amount, now);
    let charged = Effect::Publish(
        Event::SubscriptionCharged(
            SubscriptionChargedEvent {
                subscription_id,
                merchant: sub.merchant,
                amount,
                lifetime_charged: after.lifetime_charged,
            },
        ),
    );
    match credited(
        s.merchants,
        Bucket { holder: sub.merchant, token: sub.token },
        amount,
        BillingChargeKind::Interval,
    ) {
        Err(e) => (s, Err(e)),
        Ok(merchants) => if sub.lifetime_charged + amount > i128::MAX {
            (s, Err(Error::Overflow))
        } else {
            (
                VaultState {
                    subscriptions: s.subscriptions.insert(subscription_id, after),
                    merchants,
                    marks: ChargeMarks {
                        period: s.marks.period.insert(
                            subscription_id,
                            (now / sub.interval_seconds) as u64,
                        ),
                        key: match idempotency_key {
                            Some(key) => s.marks.key.insert(subscription_id, key),
                            None => s.marks.key,
                        },
                    },
                    statements: with_statement(
                        s.statements,
                        statement_row(
                            s.statements,
                            subscription_id,
                            amount,
                            sub.merchant,
                            BillingChargeKind::Interval,
                            sub.last_payment_timestamp,
                            now,
                            now,
                        ),
                    ),
                    outbox: if cap_is_reached(after) {
                        s.outbox.push(charged).push(cap_event(subscription_id, after, now))
                    } else {
                        s.outbox.push(charged)
                    },
                    ..s
                },
                Ok(()),
            )
        },
    }
}

/// What charging one billing interval does and returns. Refusals leave the state as it
/// was, except that a lifetime cap without room cancels the subscription and a balance
/// that is too small moves its status.
pub open spec fn interval_charge(
    s: VaultState,
    subscription_id: u32,
    now: u64,
    idempotency_key: Option<Bytes32>,
    quote: OraclePrice,
) -> (VaultState, Result<(), Error>) {
    match s.subscriptions.get(subscription_id) {
        None => (s, Err(Error::NotFound)),
        Some(sub) => if is_paused(s.merchants, sub.merchant) {
            (s, Err(Error::MerchantPaused))
        } else if !is_chargeable(sub.status) {
            (s, Err(Error::NotActive))
        } else if already_processed(s, subscription_id, idempotency_key) {
            (s, Ok(()))
        } else if already_charged(s, subscription_id, (now / sub.interval_seconds) as u64) {
            (s, Err(Error::Replay))
        } else {
            match charge_amount(s, sub, quote, now) {
                Err(e) => (s, Err(e)),
                Ok(amount) => if sub.last_payment_timestamp + sub.interval_seconds > u64::MAX {
                    (s, Err(Error::Overflow))
                } else if now < sub.last_payment_timestamp + sub.interval_seconds {
                    (s, Err(Error::IntervalNotElapsed))
                } else if exceeds_cap(sub, amount) {
                    (cancelled_by_cap(s, subscription_id, now), Err(Error::LifetimeCapReached))
                } else if lowered_balance(sub.prepaid_balance, amount) is Err {
                    underfunded(s, subscription_id, amount, now)
                } else {
                    paid(s, subscription_id, amount, now, idempotency_key)
                },
            }
        },
    }
}

/// Cancels a subscription whose cap leaves no room, and says so.
fn cancel_by_cap(vault: &mut SubscriptionVault, subscription_id: u32, now: u64)
    requires
        old(vault)@.subscriptions.contains_key(subscription_id),
        old(vault)@.subscriptions[subscription_id].lifetime_cap is Some,
    ensures
        final(vault)@ == cancelled_by_cap(old(vault)@, subscription_id, now),
{
    if let Some(mut sub) = vault.subscriptions.get(subscription_id) {
        if let Some(cap) = sub.lifetime_cap {
            sub.status = SubscriptionStatus::Cancelled;
            vault.subscriptions.set(subscription_id, sub);
            vault.outbox.publish(
                Event::LifetimeCapReached(
                    LifetimeCapReachedEvent {
                        subscription_id,
                        lifetime_cap: cap,
                        lifetime_charged: sub.lifetime_charged,
                        timestamp: now,
                    },
                ),
            );
        }
    }
}

/// Whether a lifetime cap leaves no room for a charge of `amount`.
fn would_exceed_cap(sub: &Subscription, amount: i128) -> (exceeds: bool)
    ensures
        exceeds == exceeds_cap(*sub, amount),
{
    match sub.lifetime_cap {
        Some(cap) => {
            let room: i128 = match cap.checked_sub(sub.lifetime_charged) {
                Some(room) => if room > 0 {
                    room
                } else {
                    0
                },
                None => 0,
            };
            room == 0 || amount > room
        },
        None => false,
    }
}

/// Whether a lifetime cap is used up.
fn cap_used_up(sub: &Subscription) -> (reached: bool)
    ensures
        reached == cap_is_reached(*sub),
{
    match sub.lifetime_cap {
        Some(cap) => sub.lifetime_charged >= cap,
        None => false,
    }
}

/// Records that an interval charge found too small a balance.
fn charge_underfunded(
    vault: &mut SubscriptionVault,
    subscription_id: u32,
    amount: i128,
    now: u64,
) -> (result: Result<(), Error>)
    requires
        old(vault)@.subscriptions.contains_key(subscription_id),
        is_chargeable(old(vault)@.subscriptions[subscription_id].status),
    ensures
        (final(vault)@, result) == underfunded(old(vault)@, subscription_id, amount, now),
{
    let mut sub = match get_subscription(vault, subscription_id) {
        Ok(sub) => sub,
        Err(e) => return Err(e),
    };
    let grace: u64 = match get_grace_period(vault) {
        Ok(grace) => grace,
        Err(_) => 0,
    };
    let next_allowed: u64 = match sub.last_payment_timestamp.checked_add(sub.interval_seconds) {
        Some(next_allowed) => next_allowed,
        None => return Err(Error::Overflow),
    };
    let grace_expires: u64 = match next_allowed.checked_add(grace) {
        Some(grace_expires) => grace_expires,
        None => return Err(Error::Overflow),
    };
    let status = if grace > 0 && now < grace_expires {
        SubscriptionStatus::GracePeriod
    } else {
        SubscriptionStatus::InsufficientBalance
    };
    match validate_status_transition(&sub.status, &status) {
        Ok(()) => {},
        Err(e) => return Err(e),
    }
    sub.status = status;
    vault.subscriptions.set(subscription_id, sub);
    vault.outbox.publish(
        Event::ChargeFailed(
            ChargeFailedEvent {
                subscription_id,
                merchant: sub.merchant,
                shortage: InsufficientBalanceError::new(sub.prepaid_balance, amount),
                status,
                timestamp: now,
            },
        ),
    );
    Err(Error::InsufficientBalance)
}

/// Debits a paid interval and credits the merchant.
fn charge_paid(
    vault: &mut SubscriptionVault,
    subscription_id: u32,
    amount: i128,
    now: u64,
    idempotency_key: Option<Bytes32>,
) -> (result: Result<(), Error>)
    requires
        old(vault)@.subscriptions.contains_key(subscription_id),
        is_chargeable(old(vault)@.subscriptions[subscription_id].status),
        old(vault)@.subscriptions[subscription_id].interval_seconds != 0,
        lowered_balance(old(vault)@.subscriptions[subscription_id].prepaid_balance, amount) is Ok,
    ensures
        (final(vault)@, result) == paid(
            old(vault)@,
            subscription_id,
            amount,
            now,
            idempotency_key,
        ),
{
    let mut sub = match get_subscription(vault, subscription_id) {
        Ok(sub) => sub,
        Err(e) => return Err(e),
    };
    let period_start: u64 = sub.last_payment_timestamp;
    let lifetime_charged: i128 = match safe_add(sub.lifetime_charged, amount) {
        Ok(total) => total,
        Err(_) => return Err(Error::Overflow),
    };
    match credit_merchant_balance_for_token(
        &mut vault.merchants,
        &sub.merchant,
        &sub.token,
        amount,
        BillingChargeKind::Interval,
    ) {
        Ok(()) => {},
        Err(e) => return Err(e),
    }
    sub.prepaid_balance = sub.prepaid_balance - amount;
    sub.last_payment_timestamp = now;
    sub.lifetime_charged = lifetime_charged;
    let cap_reached = cap_used_up(&sub);
    // A successful charge ends the grace period; a cap that is used up ends the
    // subscription.
    sub.status = if cap_reached {
        SubscriptionStatus::Cancelled
    } else {
        SubscriptionStatus::Active
    };
    vault.subscriptions.set(subscription_id, sub);
    vault.marks.period.set(subscription_id, now / sub.interval_seconds);
    if let Some(key) = idempotency_key {
        vault.marks.key.set(subscription_id, key);
    }
    append_statement(
        &mut vault.statements,
        subscription_id,
        amount,
        sub.merchant,
        BillingChargeKind::Interval,
        period_start,
        now,
        now,
    );
    vault.outbox.publish(
        Event::SubscriptionCharged(
            SubscriptionChargedEvent {
                subscription_id,
                merchant: sub.merchant,
                amount,
                lifetime_charged: sub.lifetime_charged,
            },
        ),
    );
    if cap_reached {
        if let Some(cap) = sub.lifetime_cap {
            vault.outbox.publish(
                Event::LifetimeCapReached(
                    LifetimeCapReachedEvent {
                        subscription_id,
                        lifetime_cap: cap,
                        lifetime_charged: sub.lifetime_charged,
                        timestamp: now,
                    },
                ),
            );
        }
    }
    Ok(())
}

/// Performs a single interval-based charge with optional replay protection.
///
/// # Lifetime Cap Enforcement
///
/// When a subscription has a `lifetime_cap` configured:
/// 1. Before charging, the remaining cap (`cap - lifetime_charged`) is checked.
/// 2. If the remaining cap is already zero, or smaller than the charge, returns
///    `LifetimeCapReached` and cancels the subscription; partial charges are not issued.
/// 3. On a successful charge, `lifetime_charged` is incremented by the amount.
/// 4. After the charge, if `lifetime_charged` has reached the cap, the subscription is
///    cancelled and a `LifetimeCapReachedEvent` is published.
///
/// # Idempotency
///
/// - If `idempotency_key` is `Some(k)` and this subscription was last charged with key `k`,
///   returns `Ok(())` without changing state.
/// - Otherwise the period is `now / interval_seconds`. If it was already charged, returns
///   `Replay`.
pub fn charge_one(
    vault: &mut SubscriptionVault,
    subscription_id: u32,
    now: u64,
    idempotency_key: Option<Bytes32>,
    quote: &OraclePrice,
) -> (result: Result<(), Error>)
    requires
        has_period(old(vault)@, subscription_id),
    ensures
        (final(vault)@, result) == interval_charge(
            old(vault)@,
            subscription_id,
            now,
            idempotency_key,
            *quote,
        ),
{
    let sub = match get_subscription(vault, subscription_id) {
        Ok(sub) => sub,
        Err(e) => return Err(e),
    };
    if vault.merchants.paused(sub.merchant) {
        return Err(Error::MerchantPaused);
    }
    if sub.status != SubscriptionStatus::Active && sub.status != SubscriptionStatus::GracePeriod {
        return Err(Error::NotActive);
    }
    let period_index: u64 = now / sub.interval_seconds;

    // Idempotent return: same idempotency key already processed for this subscription
    if let Some(key) = idempotency_key {
        if let Some(stored) = vault.marks.key.get(subscription_id) {
            if stored == key {
                return Ok(());
            }
        }
    }

    // Replay: already charged for this billing period
    if let Some(stored_period) = vault.marks.period.get(subscription_id) {
        if period_index <= stored_period {
            return Err(Error::Replay);
        }
    }
    let amount: i128 = match resolve_charge_amount(vault, &sub, quote, now) {
        Ok(amount) => amount,
        Err(e) => return Err(e),
    };
    let next_allowed: u64 = match sub.last_payment_timestamp.checked_add(sub.interval_seconds) {
        Some(next_allowed) => next_allowed,
        None => return Err(Error::Overflow),
    };
    if now < next_allowed {
        return Err(Error::IntervalNotElapsed);
    }
    if would_exceed_cap(&sub, amount) {
        cancel_by_cap(vault, subscription_id, now);
        return Err(Error::LifetimeCapReached);
    }
    match safe_sub_balance(sub.prepaid_balance, amount) {
        Ok(_) => charge_paid(vault, subscription_id, amount, now, idempotency_key),
        Err(_) => charge_underfunded(vault, subscription_id, amount, now),
    }
}

/// Seconds from `since` to `now`, none where the clock has not reached `since`.
pub open spec fn elapsed(since: u64, now: u64) -> int {
    if now > since {
        now - since
    } else {
        0
    }
}

/// The billing period of a usage charge; without a billing interval each second is one.
pub open spec fn usage_period(interval_seconds: u64, now: u64) -> u64 {
    if interval_seconds == 0 {
        now
    } else {
        (now / interval_seconds) as u64
    }
}

/// The rate window that a usage charge falls into, before it is counted: when the window
/// started and how many charges it has seen. A window that has expired is followed by one
/// that starts now.
pub open spec fn usage_window(
    limits: Option<UsageLimits>,
    state: Option<UsageState>,
    now: u64,
) -> (u64, u32) {
    let length = match limits {
        Some(limits) => limits.rate_window_secs,
        None => 0,
    };
    match state {
        Some(state) => if elapsed(state.window_start_timestamp, now) >= length {
            (now, 0)
        } else {
            (state.window_start_timestamp, state.window_call_count)
        },
        None => (now, 0),
    }
}

/// The amount charged for usage in the billing period so far.
pub open spec fn usage_in_period(state: Option<UsageState>, period: u64) -> i128 {
    match state {
        Some(state) => if state.period_index == period {
            state.current_period_usage_units
        } else {
            0
        },
        None => 0,
    }
}

/// The bookkeeping after a usage charge, or the limit that refuses it: a charge too close
/// to the last one, one too many in the rate window, or too much in the billing period.
pub open spec fn usage_after(
    limits: Option<UsageLimits>,
    state: Option<UsageState>,
    interval_seconds: u64,
    amount: i128,
    now: u64,
) -> Result<UsageState, Error> {
    let (window_start, count) = usage_window(limits, state, now);
    let period = usage_period(interval_seconds, now);
    let units = usage_in_period(state, period) + amount;
    if limits matches Some(l) && state matches Some(st) && elapsed(st.last_usage_timestamp, now)
        < l.burst_min_interval_secs {
        Err(Error::BurstLimitExceeded)
    } else if limits matches Some(l) && l.rate_limit_max_calls matches Some(most) && count >= most {
        Err(Error::RateLimitExceeded)
    } else if units > i128::MAX {
        Err(Error::Overflow)
    } else if limits matches Some(l) && l.usage_cap_units matches Some(most) && units > most {
        Err(Error::UsageCapExceeded)
    } else {
        Ok(
            UsageState {
                last_usage_timestamp: now,
                window_start_timestamp: window_start,
                window_call_count: if count == u32::MAX {
                    count
                } else {
                    (count + 1) as u32
                },
                current_period_usage_units: units as i128,
                period_index: period,
            },
        )
    }
}

/// A subscription after a usage charge. An emptied balance blocks further charges until it
/// is topped up; a cap that is used up ends the subscription.
pub open spec fn after_usage(sub: Subscription, amount: i128) -> Subscription {
    let charged = Subscription {
        prepaid_balance: (sub.prepaid_balance - amount) as i128,
        lifetime_charged: (sub.lifetime_charged + amount) as i128,
        ..sub
    };
    Subscription {
        status: if cap_is_reached(charged) {
            SubscriptionStatus::Cancelled
        } else if charged.prepaid_balance == 0 {
            SubscriptionStatus::InsufficientBalance
        } else {
            sub.status
        },
        ..charged
    }
}

/// What a usage charge does that every check has let through.
pub open spec fn usage_applied(
    s: VaultState,
    subscription_id: u32,
    amount: i128,
    reference: Seq<u8>,
    state: UsageState,
    now: u64,
) -> (VaultState, Result<(), Error>) {
    let sub = s.subscriptions[subscription_id];
    let after = after_usage(sub, amount);
    let statement = Effect::Publish(
        Event::UsageStatement(
            UsageStatementEvent {
                subscription_id,
                merchant: sub.merchant,
                token: sub.token,
                usage_amount: amount,
                reference,
                timestamp: now,
            },
        ),
    );
    match credited(
        s.merchants,
        Bucket { holder: sub.merchant, token: sub.token },
        amount,
        BillingChargeKind::Usage,
    ) {
        Err(e) => (s, Err(e)),
        Ok(merchants) => (
            VaultState {
                subscriptions: s.subscriptions.insert(subscription_id, after),
                merchants,
                usage: Usage {
                    state: s.usage.state.insert(subscription_id, state),
                    reference: s.usage.reference.insert(subscription_id, reference),
                    ..s.usage
                },
                statements: with_statement(
                    s.statements,
                    statement_row(
                        s.statements,
                        subscription_id,
                        amount,
                        sub.merchant,
                        BillingChargeKind::Usage,
                        now,
                        now,
                        now,
                    ),
                ),
                outbox: if cap_is_reached(after) {
                    s.outbox.push(statement).push(cap_event(subscription_id, after, now))
                } else {
                    s.outbox.push(statement)
                },
                ..s
            },
            Ok(()),
        ),
    }
}

/// What charging metered usage does and returns. Refusals leave the state as it was,
/// except that a lifetime cap without room cancels the subscription.
pub open spec fn usage_charge(
    s: VaultState,
    subscription_id: u32,
    usage_amount: i128,
    reference: Seq<u8>,
    now: u64,
) -> (VaultState, Result<(), Error>) {
    match s.subscriptions.get(subscription_id) {
        None => (s, Err(Error::NotFound)),
        Some(sub) => if is_paused(s.merchants, sub.merchant) {
            (s, Err(Error::MerchantPaused))
        } else if !(sub.status is Active) {
            (s, Err(Error::NotActive))
        } else if !sub.usage_enabled {
            (s, Err(Error::UsageNotEnabled))
        } else if usage_amount <= 0 {
            (s, Err(Error::InvalidAmount))
        } else if sub.prepaid_balance < usage_amount {
            (s, Err(Error::InsufficientPrepaidBalance))
        } else if s.usage.reference.get(subscription_id) == Some(reference) {
            (s, Err(Error::Replay))
        } else {
            match usage_after(
                s.usage.limits.get(subscription_id),
                s.usage.state.get(subscription_id),
                sub.interval_seconds,
                usage_amount,
                now,
            ) {
                Err(e) => (s, Err(e)),
                Ok(state) => if sub.lifetime_charged + usage_amount > i128::MAX {
                    (s, Err(Error::Overflow))
                } else if sub.lifetime_cap matches Some(cap) && sub.lifetime_charged
                    + usage_amount > cap {
                    (cancelled_by_cap(s, subscription_id, now), Err(Error::LifetimeCapReached))
                } else {
                    usage_applied(s, subscription_id, usage_amount, reference, state, now)
                },
            }
        },
    }
}

fn seconds_since(since: u64, now: u64) -> (seconds: u64)
    ensures
        seconds == elapsed(since, now),
{
    if now > since {
        now - since
    } else {
        0
    }
}

/// Checks a usage charge against the subscription's limits and gives the bookkeeping after
/// it.
fn check_usage_limits(
    limits: &Option<UsageLimits>,
    state: &Option<UsageState>,
    interval_seconds: u64,
    amount: i128,
    now: u64,
) -> (result: Result<UsageState, Error>)
    requires
        amount > 0,
    ensures
        result == usage_after(*limits, *state, interval_seconds, amount, now),
{
    let period: u64 = if interval_seconds == 0 {
        now
    } else {
        now / interval_seconds
    };
    let window: u64 = match limits {
        Some(limits) => limits.rate_window_secs,
        None => 0,
    };
    let mut window_start: u64 = now;
    let mut count: u32 = 0;
    let mut used: i128 = 0;
    if let Some(state) = state {
        if seconds_since(state.window_start_timestamp, now) < window {
            window_start = state.window_start_timestamp;
            count = state.window_call_count;
        }
        if state.period_index == period {
            used = state.current_period_usage_units;
        }
        if let Some(limits) = limits {
            if seconds_since(state.last_usage_timestamp, now) < limits.burst_min_interval_secs {
                return Err(Error::BurstLimitExceeded);
            }
        }
    }
    if let Some(limits) = limits {
        if let Some(most) = limits.rate_limit_max_calls {
            if count >= most {
                return Err(Error::RateLimitExceeded);
            }
        }
    }
    let units: i128 = match safe_add(used, amount) {
        Ok(units) => units,
        Err(_) => return Err(Error::Overflow),
    };
    if let Some(limits) = limits {
        if let Some(most) = limits.usage_cap_units {
            if units > most {
                return Err(Error::UsageCapExceeded);
            }
        }
    }
    Ok(
        UsageState {
            last_usage_timestamp: now,
            window_start_timestamp: window_start,
            window_call_count: count.saturating_add(1),
            current_period_usage_units: units,
            period_index: period,
        },
    )
}

/// Debits a usage charge and credits the merchant.
fn apply_usage(
    vault: &mut SubscriptionVault,
    subscription_id: u32,
    amount: i128,
    reference: &Vec<u8>,
    state: UsageState,
    now: u64,
) -> (result: Result<(), Error>)
    requires
        old(vault)@.subscriptions.contains_key(subscription_id),
        0 < amount <= old(vault)@.subscriptions[subscription_id].prepaid_balance,
        old(vault)@.subscriptions[subscription_id].lifetime_charged + amount <= i128::MAX,
    ensures
        (final(vault)@, result) == usage_applied(
            old(vault)@,
            subscription_id,
            amount,
            reference@,
            state,
            now,
        ),
{
    let mut sub = match get_subscription(vault, subscription_id) {
        Ok(sub) => sub,
        Err(e) => return Err(e),
    };
    match credit_merchant_balance_for_token(
        &mut vault.merchants,
        &sub.merchant,
        &sub.token,
        amount,
        BillingChargeKind::Usage,
    ) {
        Ok(()) => {},
        Err(e) => return Err(e),
    }
    sub.prepaid_balance = sub.prepaid_balance - amount;
    sub.lifetime_charged = sub.lifetime_charged + amount;
    let cap_reached = cap_used_up(&sub);
    if cap_reached {
        sub.status = SubscriptionStatus::Cancelled;
    } else if sub.prepaid_balance == 0 {
        sub.status = SubscriptionStatus::InsufficientBalance;
    }
    vault.subscriptions.set(subscription_id, sub);
    vault.usage.state.set(subscription_id, state);
    let stored = copy_text(reference);
    proof {
        lemma_viewed_insert(vault.usage.reference@, subscription_id, stored);
    }
    vault.usage.reference.set(subscription_id, stored);
    append_statement(
        &mut vault.statements,
        subscription_id,
        amount,
        sub.merchant,
        BillingChargeKind::Usage,
        now,
        now,
        now,
    );
    vault.outbox.publish(
        Event::UsageStatement(
            UsageStatementEvent {
                subscription_id,
                merchant: sub.merchant,
                token: sub.token,
                usage_amount: amount,
                reference: copy_text(reference),
                timestamp: now,
            },
        ),
    );
    if cap_reached {
        if let Some(cap) = sub.lifetime_cap {
            vault.outbox.publish(
                Event::LifetimeCapReached(
                    LifetimeCapReachedEvent {
                        subscription_id,
                        lifetime_cap: cap,
                        lifetime_charged: sub.lifetime_charged,
                        timestamp: now,
                    },
                ),
            );
        }
    }
    Ok(())
}

/// Debit a metered `usage_amount` from a subscription's prepaid balance.
///
/// # Lifetime Cap Enforcement
///
/// If a lifetime cap is configured, `usage_amount` must not cause `lifetime_charged` to
/// exceed `lifetime_cap`. If it would, the subscription is cancelled and
/// `LifetimeCapReached` is returned.
///
/// # Shared safety checks
///
/// * Subscription must exist (`NotFound`).
/// * Its merchant must not be paused (`MerchantPaused`).
/// * Subscription must be `Active` (`NotActive`).
/// * `usage_enabled` must be `true` (`UsageNotEnabled`).
/// * `usage_amount` must be positive (`InvalidAmount`).
/// * `prepaid_balance >= usage_amount` (`InsufficientPrepaidBalance`).
/// * `reference` must differ from the last one (`Replay`).
/// * The configured limits must leave room (`BurstLimitExceeded`, `RateLimitExceeded`,
///   `UsageCapExceeded`).
///
/// On success the prepaid balance is reduced. If the balance reaches zero the
/// subscription transitions to `InsufficientBalance`, blocking further charges until the
/// subscriber tops up.
pub fn charge_usage_one(
    vault: &mut SubscriptionVault,
    subscription_id: u32,
    usage_amount: i128,
    reference: &Vec<u8>,
    now: u64,
) -> (result: Result<(), Error>)
    ensures
        (final(vault)@, result) == usage_charge(
            old(vault)@,
            subscription_id,
            usage_amount,
            reference@,
            now,
        ),
{
    let sub = match get_subscription(vault, subscription_id) {
        Ok(sub) => sub,
        Err(e) => return Err(e),
    };
    if vault.merchants.paused(sub.merchant) {
        return Err(Error::MerchantPaused);
    }
    if sub.status != SubscriptionStatus::Active {
        return Err(Error::NotActive);
    }
    if !sub.usage_enabled {
        return Err(Error::UsageNotEnabled);
    }
    if usage_amount <= 0 {
        return Err(Error::InvalidAmount);
    }
    if sub.prepaid_balance < usage_amount {
        return Err(Error::InsufficientPrepaidBalance);
    }
    if let Some(last) = vault.usage.reference.get(subscription_id) {
        if same_text(last, reference) {
            return Err(Error::Replay);
        }
    }
    let state = match check_usage_limits(
        &vault.usage.limits.get(subscription_id),
        &vault.usage.state.get(subscription_id),
        sub.interval_seconds,
        usage_amount,
        now,
    ) {
        Ok(state) => state,
        Err(e) => return Err(e),
    };
    let new_charged: i128 = match safe_add(sub.lifetime_charged, usage_amount) {
        Ok(total) => total,
        Err(_) => return Err(Error::Overflow),
    };
    if let Some(cap) = sub.lifetime_cap {
        if new_charged > cap {
            cancel_by_cap(vault, subscription_id, now);
            return Err(Error::LifetimeCapReached);
        }
    }
    apply_usage(vault, subscription_id, usage_amount, reference, state, now)
}

} // verus!
