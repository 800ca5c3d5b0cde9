//! Subscription lifecycle: create, deposit, withdraw, cancel; plan templates; credit
//! limits.
//!
//! # Order of effects
//!
//! Operations that move tokens check first, then update the vault's own state, and only
//! then queue the transfer, so that whatever the token contract does in response finds
//! consistent state.
use crate::admin::{
    admin_refusal, get_min_topup, get_token, initialized, is_accepted, is_token_accepted,
    require_admin_auth,
};
use crate::events::{
    Effect, Event, FundsDepositedEvent, OneOffChargedEvent, PartialRefundEvent,
    SubscriptionCancelledEvent, SubscriptionCreatedEvent, SubscriptionPausedEvent,
    SubscriptionResumedEvent, TokenTransfer,
};
use crate::merchant::{credit_merchant_balance_for_token, credited};
use crate::queries::get_subscription;
use crate::safe_math::{amount_of, safe_add, safe_add_balance, validate_non_negative};
use crate::state_machine::{transition_allowed, validate_status_transition};
use crate::statements::{append_statement, statement_row, with_statement};
use crate::types::{
    Address, BillingChargeKind, Bucket, Call, Error, Subscription, SubscriptionStatus,
    UsageLimits,
};
use crate::vault::{SubscriptionVault, Usage, VaultState};
use vstd::prelude::*;

verus! {

/// Largest subscription id; once all ids below it are given out, no subscription can be
/// created.
pub const MAX_SUBSCRIPTION_ID: u32 = 0xffff_ffff;

/// Allocates the next subscription id.
pub fn next_id(vault: &mut SubscriptionVault) -> (id: u32)
    requires
        old(vault)@.next_id < u32::MAX,
    ensures
        id == old(vault)@.next_id,
        final(vault)@ == (VaultState { next_id: (id + 1) as u32, ..old(vault)@ }),
{
    let id: u32 = vault.next_id;
    vault.next_id = id + 1;
    id
}

/// Allocates the next plan template id.
pub fn next_plan_id(vault: &mut SubscriptionVault) -> (id: u32)
    requires
        old(vault)@.next_plan_id < u32::MAX,
    ensures
        id == old(vault)@.next_plan_id,
        final(vault)@ == (VaultState { next_plan_id: (id + 1) as u32, ..old(vault)@ }),
{
    let id: u32 = vault.next_plan_id;
    vault.next_plan_id = id + 1;
    id
}

// ── Credit limits ────────────────────────────────────────────────────────────

/// What one subscription adds to its subscriber's exposure: its prepaid balance and, while
/// it is active, the amount of its next interval.
pub open spec fn with_exposure_of(total: i128, sub: Subscription) -> Result<i128, Error> {
    match amount_of(total + sub.prepaid_balance) {
        Err(e) => Err(e),
        Ok(sum) => if sub.status is Active {
            amount_of(sum + sub.amount)
        } else {
            Ok(sum)
        },
    }
}

/// The exposure through subscriptions with an id below `end`, added up with a check after
/// each step.
pub open spec fn exposure_below(s: VaultState, bucket: Bucket, end: nat) -> Result<i128, Error>
    decreases end,
{
    if end == 0 {
        Ok(0)
    } else {
        match exposure_below(s, bucket, (end - 1) as nat) {
            Err(e) => Err(e),
            Ok(total) => match s.subscriptions.get((end - 1) as u32) {
                Some(sub) => if sub.subscriber == bucket.holder && sub.token == bucket.token {
                    with_exposure_of(total, sub)
                } else {
                    Ok(total)
                },
                None => Ok(total),
            },
        }
    }
}

/// A subscriber's exposure in one token.
pub open spec fn exposure(s: VaultState, bucket: Bucket) -> Result<i128, Error> {
    exposure_below(s, bucket, s.next_id as nat)
}

/// The largest exposure allowed; 0 means that none is too large.
pub open spec fn credit_limit(s: VaultState, bucket: Bucket) -> i128 {
    match s.credit_limits.get(bucket) {
        Some(limit) => limit,
        None => 0,
    }
}

/// Why a subscriber may not take on `added` more exposure.
pub open spec fn credit_refusal(s: VaultState, bucket: Bucket, added: i128) -> Option<Error> {
    if credit_limit(s, bucket) == 0 {
        None
    } else {
        match exposure(s, bucket) {
            Err(e) => Some(e),
            Ok(total) => match amount_of(total + added) {
                Err(e) => Some(e),
                Ok(sum) => if sum > credit_limit(s, bucket) {
                    Some(Error::CreditLimitExceeded)
                } else {
                    None
                },
            },
        }
    }
}

/// Return the current aggregate exposure for a subscriber and token.
///
/// Exposure is defined as the sum of prepaid balances plus the next-interval amounts for
/// active subscriptions.
pub fn get_subscriber_exposure(
    vault: &SubscriptionVault,
    subscriber: Address,
    token: Address,
) -> (result: Result<i128, Error>)
    ensures
        result == exposure(vault@, Bucket { holder: subscriber, token }),
{
    let ghost bucket = Bucket { holder: subscriber, token };
    let mut total: i128 = 0;
    let mut id: u32 = 0;
    while id < vault.next_id
        invariant
            id <= vault.next_id,
            bucket == (Bucket { holder: subscriber, token }),
            exposure_below(vault@, bucket, id as nat) == Ok::<i128, Error>(total),
        decreases vault.next_id - id,
    {
        if let Some(sub) = vault.subscriptions.get(id) {
            if sub.subscriber == subscriber && sub.token == token {
                let grown = match safe_add(total, sub.prepaid_balance) {
                    Err(e) => Err(e),
                    Ok(sum) => if sub.status == SubscriptionStatus::Active {
                        safe_add(sum, sub.amount)
                    } else {
                        Ok(sum)
                    },
                };
                match grown {
                    Ok(sum) => {
                        total = sum;
                    },
                    Err(e) => {
                        proof {
                            lemma_refused_exposure_stays(
                                vault@,
                                bucket,
                                (id + 1) as nat,
                                vault@.next_id as nat,
                                e,
                            );
                        }
                        return Err(e);
                    },
                }
            }
        }
        id = id + 1;
    }
    Ok(total)
}

proof fn lemma_refused_exposure_stays(
    s: VaultState,
    bucket: Bucket,
    some: nat,
    end: nat,
    e: Error,
)
    requires
        some <= end,
        exposure_below(s, bucket, some) == Err::<i128, Error>(e),
    ensures
        exposure_below(s, bucket, end) == Err::<i128, Error>(e),
    decreases end,
{
    if some < end {
        lemma_refused_exposure_stays(s, bucket, some, (end - 1) as nat, e);
    }
}

/// Read the configured credit limit for a subscriber and token.
///
/// Returns 0 when no limit is configured, meaning "no limit".
pub fn get_subscriber_credit_limit(
    vault: &SubscriptionVault,
    subscriber: Address,
    token: Address,
) -> (limit: i128)
    ensures
        limit == credit_limit(vault@, Bucket { holder: subscriber, token }),
{
    match vault.credit_limits.lookup(Bucket { holder: subscriber, token }) {
        Some(limit) => limit,
        None => 0,
    }
}

/// Refuses exposure beyond the subscriber's credit limit.
pub(crate) fn check_credit(
    vault: &SubscriptionVault,
    subscriber: Address,
    token: Address,
    added: i128,
) -> (result: Result<(), Error>)
    ensures
        match credit_refusal(vault@, Bucket { holder: subscriber, token }, added) {
            Some(e) => result == Err::<(), Error>(e),
            None => result == Ok::<(), Error>(()),
        },
{
    let limit: i128 = get_subscriber_credit_limit(vault, subscriber, token);
    if limit == 0 {
        return Ok(());
    }
    match get_subscriber_exposure(vault, subscriber, token) {
        Err(e) => Err(e),
        Ok(total) => match safe_add(total, added) {
            Err(e) => Err(e),
            Ok(sum) => if sum > limit {
                Err(Error::CreditLimitExceeded)
            } else {
                Ok(())
            },
        },
    }
}

// ── Creation ─────────────────────────────────────────────────────────────────

/// A lifetime cap, where there is one, must be positive.
pub open spec fn is_valid_cap(lifetime_cap: Option<i128>) -> bool {
    lifetime_cap matches Some(cap) ==> cap > 0
}

/// A subscription at the time of its creation.
pub open spec fn new_subscription(
    subscriber: Address,
    merchant: Address,
    token: Address,
    amount: i128,
    interval_seconds: u64,
    usage_enabled: bool,
    lifetime_cap: Option<i128>,
    now: u64,
) -> Subscription {
    Subscription {
        subscriber,
        merchant,
        token,
        amount,
        interval_seconds,
        last_payment_timestamp: now,
        status: SubscriptionStatus::Active,
        prepaid_balance: 0,
        usage_enabled,
        lifetime_cap,
        lifetime_charged: 0,
    }
}

/// Why a subscription is not created.
pub open spec fn creation_refusal(
    s: VaultState,
    subscriber: Address,
    token: Address,
    amount: i128,
    lifetime_cap: Option<i128>,
) -> Option<Error> {
    if amount < 0 {
        Some(Error::InvalidAmount)
    } else if !is_accepted(s, token) {
        Some(Error::InvalidInput)
    } else if !is_valid_cap(lifetime_cap) {
        Some(Error::InvalidAmount)
    } else {
        match credit_refusal(s, Bucket { holder: subscriber, token }, amount) {
            Some(e) => Some(e),
            None => if s.next_id == MAX_SUBSCRIPTION_ID {
                Some(Error::SubscriptionLimitReached)
            } else {
                None
            },
        }
    }
}

/// The state once `sub` is created under the next id.
pub open spec fn with_subscription(s: VaultState, sub: Subscription) -> VaultState {
    let id = s.next_id;
    VaultState {
        next_id: (id + 1) as u32,
        subscriptions: s.subscriptions.insert(id, sub),
        by_merchant: s.by_merchant.push((sub.merchant, id)),
        by_token: s.by_token.push((sub.token, id)),
        outbox: s.outbox.push(
            Effect::Publish(
                Event::SubscriptionCreated(
                    SubscriptionCreatedEvent {
                        subscription_id: id,
                        subscriber: sub.subscriber,
                        merchant: sub.merchant,
                        amount: sub.amount,
                        interval_seconds: sub.interval_seconds,
                        lifetime_cap: sub.lifetime_cap,
                    },
                ),
            ),
        ),
        ..s
    }
}

/// Stores a subscription under the next id, indexes it and says so.
pub(crate) fn store_subscription(vault: &mut SubscriptionVault, sub: Subscription) -> (id: u32)
    requires
        old(vault)@.next_id < u32::MAX,
    ensures
        id == old(vault)@.next_id,
        final(vault)@ == with_subscription(old(vault)@, sub),
{
    let id: u32 = next_id(vault);
    vault.subscriptions.set(id, sub);
    vault.by_merchant.add_id(sub.merchant, id);
    vault.by_token.add_id(sub.token, id);
    vault.outbox.publish(
        Event::SubscriptionCreated(
            SubscriptionCreatedEvent {
                subscription_id: id,
                subscriber: sub.subscriber,
                merchant: sub.merchant,
                amount: sub.amount,
                interval_seconds: sub.interval_seconds,
                lifetime_cap: sub.lifetime_cap,
            },
        ),
    );
    id
}

pub(crate) fn cap_is_valid(lifetime_cap: &Option<i128>) -> (valid: bool)
    ensures
        valid == is_valid_cap(*lifetime_cap),
{
    match lifetime_cap {
        Some(cap) => *cap > 0,
        None => true,
    }
}

/// Creates a subscription in the default token.
pub fn do_create_subscription(
    vault: &mut SubscriptionVault,
    call: &Call,
    subscriber: Address,
    merchant: Address,
    amount: i128,
    interval_seconds: u64,
    usage_enabled: bool,
    lifetime_cap: Option<i128>,
) -> (result: Result<u32, Error>)
    requires
        call.signed_by(subscriber),
    ensures
        match initialized(old(vault)@.config.token) {
            Err(e) => result == Err::<u32, Error>(e) && final(vault)@ == old(vault)@,
            Ok(token) => match creation_refusal(
                old(vault)@,
                subscriber,
                token,
                amount,
                lifetime_cap,
            ) {
                Some(e) => result == Err::<u32, Error>(e) && final(vault)@ == old(vault)@,
                None => result == Ok::<u32, Error>(old(vault)@.next_id) && final(vault)@
                    == with_subscription(
                    old(vault)@,
                    new_subscription(
                        subscriber,
                        merchant,
                        token,
                        amount,
                        interval_seconds,
                        usage_enabled,
                        lifetime_cap,
                        call.now,
                    ),
                ),
            },
        },
{
    let token = match get_token(vault) {
        Ok(token) => token,
        Err(e) => return Err(e),
    };
    do_create_subscription_with_token(
        vault,
        call,
        subscriber,
        merchant,
        token,
        amount,
        interval_seconds,
        usage_enabled,
        lifetime_cap,
    )
}

/// Creates a subscription pinned to a specific accepted token.
pub fn do_create_subscription_with_token(
    vault: &mut SubscriptionVault,
    call: &Call,
    subscriber: Address,
    merchant: Address,
    token: Address,
    amount: i128,
    interval_seconds: u64,
    usage_enabled: bool,
    lifetime_cap: Option<i128>,
) -> (result: Result<u32, Error>)
    requires
        call.signed_by(subscriber),
    ensures
        match creation_refusal(old(vault)@, subscriber, token, amount, lifetime_cap) {
            Some(e) => result == Err::<u32, Error>(e) && final(vault)@ == old(vault)@,
            None => result == Ok::<u32, Error>(old(vault)@.next_id) && final(vault)@
                == with_subscription(
                old(vault)@,
                new_subscription(
                    subscriber,
                    merchant,
                    token,
                    amount,
                    interval_seconds,
                    usage_enabled,
                    lifetime_cap,
                    call.now,
                ),
            ),
        },
{
    match validate_non_negative(amount) {
        Err(e) => return Err(e),
        Ok(()) => {},
    }
    if !is_token_accepted(vault, &token) {
        return Err(Error::InvalidInput);
    }
    if !cap_is_valid(&lifetime_cap) {
        return Err(Error::InvalidAmount);
    }
    match check_credit(vault, subscriber, token, amount) {
        Err(e) => return Err(e),
        Ok(()) => {},
    }
    if vault.next_id == MAX_SUBSCRIPTION_ID {
        return Err(Error::SubscriptionLimitReached);
    }
    let id: u32 = store_subscription(
        vault,
        Subscription {
            subscriber,
            merchant,
            token,
            amount,
            interval_seconds,
            last_payment_timestamp: call.now,
            status: SubscriptionStatus::Active,
            prepaid_balance: 0,
            usage_enabled,
            lifetime_cap,
            lifetime_charged: 0,
        },
    );
    Ok(id)
}

// ── Deposits ─────────────────────────────────────────────────────────────────

/// Why a deposit is refused.
pub open spec fn deposit_refusal(s: VaultState, subscription_id: u32, amount: i128) -> Option<
    Error,
> {
    match s.config.min_topup {
        None => Some(Error::NotInitialized),
        Some(min_topup) => if amount < min_topup {
            Some(Error::BelowMinimumTopup)
        } else if amount < 0 {
            Some(Error::InvalidAmount)
        } else {
            match s.subscriptions.get(subscription_id) {
                None => Some(Error::NotFound),
                Some(sub) => match credit_refusal(
                    s,
                    Bucket { holder: sub.subscriber, token: sub.token },
                    amount,
                ) {
                    Some(e) => Some(e),
                    None => if sub.prepaid_balance + amount > i128::MAX {
                        Some(Error::Overflow)
                    } else {
                        None
                    },
                },
            }
        },
    }
}

/// The state after a deposit: the prepaid balance grows, the tokens are fetched from the
/// depositor, and the deposit is published.
pub open spec fn deposited(
    s: VaultState,
    subscription_id: u32,
    subscriber: Address,
    amount: i128,
    contract: Address,
) -> VaultState {
    let sub = s.subscriptions[subscription_id];
    let balance = (sub.prepaid_balance + amount) as i128;
    VaultState {
        subscriptions: s.subscriptions.insert(
            subscription_id,
            Subscription { prepaid_balance: balance, ..sub },
        ),
        outbox: s.outbox.push(
            Effect::Transfer(
                TokenTransfer { token: sub.token, from: subscriber, to: contract, amount },
            ),
        ).push(
            Effect::Publish(
                Event::FundsDeposited(
                    FundsDepositedEvent {
                        subscription_id,
                        subscriber,
                        amount,
                        prepaid_balance: balance,
                    },
                ),
            ),
        ),
        ..s
    }
}

/// Deposits tokens of `subscriber` into the prepaid balance of a subscription.
pub fn do_deposit_funds(
    vault: &mut SubscriptionVault,
    call: &Call,
    subscription_id: u32,
    subscriber: Address,
    amount: i128,
) -> (result: Result<(), Error>)
    requires
        call.signed_by(subscriber),
    ensures
        match deposit_refusal(old(vault)@, subscription_id, amount) {
            Some(e) => result == Err::<(), Error>(e) && final(vault)@ == old(vault)@,
            None => result == Ok::<(), Error>(()) && final(vault)@ == deposited(
                old(vault)@,
                subscription_id,
                subscriber,
                amount,
                call.contract,
            ),
        },
{
    // Checks
    let min_topup: i128 = match get_min_topup(vault) {
        Ok(min_topup) => min_topup,
        Err(e) => return Err(e),
    };
    if amount < min_topup {
        return Err(Error::BelowMinimumTopup);
    }
    match validate_non_negative(amount) {
        Err(e) => return Err(e),
        Ok(()) => {},
    }
    let mut sub = match get_subscription(vault, subscription_id) {
        Ok(sub) => sub,
        Err(e) => return Err(e),
    };
    match check_credit(vault, sub.subscriber, sub.token, amount) {
        Err(e) => return Err(e),
        Ok(()) => {},
    }

    // Effects
    sub.prepaid_balance = match safe_add_balance(sub.prepaid_balance, amount) {
        Ok(balance) => balance,
        Err(e) => return Err(e),
    };
    vault.subscriptions.set(subscription_id, sub);

    // Interactions
    vault.outbox.transfer(
        TokenTransfer { token: sub.token, from: subscriber, to: call.contract, amount },
    );
    vault.outbox.publish(
        Event::FundsDeposited(
            FundsDepositedEvent {
                subscription_id,
                subscriber,
                amount,
                prepaid_balance: sub.prepaid_balance,
            },
        ),
    );
    Ok(())
}

// ── Status changes ───────────────────────────────────────────────────────────

/// Why a change of status is refused: only the subscriber and the merchant may ask for it,
/// and the lifecycle must know it.
pub open spec fn status_refusal(
    s: VaultState,
    subscription_id: u32,
    authorizer: Address,
    to: SubscriptionStatus,
) -> Option<Error> {
    match s.subscriptions.get(subscription_id) {
        None => Some(Error::NotFound),
        Some(sub) => if authorizer != sub.subscriber && authorizer != sub.merchant {
            Some(Error::Forbidden)
        } else if !transition_allowed(sub.status, to) {
            Some(Error::InvalidStatusTransition)
        } else {
            None
        },
    }
}

/// The state with a subscription's status changed and `event` published.
pub open spec fn with_status(
    s: VaultState,
    subscription_id: u32,
    status: SubscriptionStatus,
    event: Event<Seq<u8>>,
) -> VaultState {
    VaultState {
        subscriptions: s.subscriptions.insert(
            subscription_id,
            Subscription { status, ..s.subscriptions[subscription_id] },
        ),
        outbox: s.outbox.push(Effect::Publish(event)),
        ..s
    }
}

/// What is published about a cancellation.
pub open spec fn cancelled_event(
    s: VaultState,
    subscription_id: u32,
    authorizer: Address,
) -> Event<Seq<u8>> {
    Event::SubscriptionCancelled(
        SubscriptionCancelledEvent {
            subscription_id,
            authorizer,
            refund_amount: s.subscriptions[subscription_id].prepaid_balance,
        },
    )
}

/// Checks who asks for a change of status and whether the lifecycle knows it.
fn check_status_change(
    vault: &SubscriptionVault,
    subscription_id: u32,
    authorizer: Address,
    to: SubscriptionStatus,
) -> (result: Result<Subscription, Error>)
    ensures
        match status_refusal(vault@, subscription_id, authorizer, to) {
            Some(e) => result == Err::<Subscription, Error>(e),
            None => vault@.subscriptions.contains_key(subscription_id) && result == Ok::<
                Subscription,
                Error,
            >(vault@.subscriptions[subscription_id]),
        },
{
    let sub = match get_subscription(vault, subscription_id) {
        Ok(sub) => sub,
        Err(e) => return Err(e),
    };
    if authorizer != sub.subscriber && authorizer != sub.merchant {
        return Err(Error::Forbidden);
    }
    match validate_status_transition(&sub.status, &to) {
        Err(e) => Err(e),
        Ok(()) => Ok(sub),
    }
}

/// Cancels a subscription for good. The prepaid balance stays for the subscriber to
/// withdraw.
pub fn do_cancel_subscription(
    vault: &mut SubscriptionVault,
    call: &Call,
    subscription_id: u32,
    authorizer: Address,
) -> (result: Result<(), Error>)
    requires
        call.signed_by(authorizer),
    ensures
        match status_refusal(
            old(vault)@,
            subscription_id,
            authorizer,
            SubscriptionStatus::Cancelled,
        ) {
            Some(e) => result == Err::<(), Error>(e) && final(vault)@ == old(vault)@,
            None => result == Ok::<(), Error>(()) && final(vault)@ == with_status(
                old(vault)@,
                subscription_id,
                SubscriptionStatus::Cancelled,
                cancelled_event(old(vault)@, subscription_id, authorizer),
            ),
        },
{
    let mut sub = match check_status_change(
        vault,
        subscription_id,
        authorizer,
        SubscriptionStatus::Cancelled,
    ) {
        Ok(sub) => sub,
        Err(e) => return Err(e),
    };
    sub.status = SubscriptionStatus::Cancelled;
    vault.subscriptions.set(subscription_id, sub);
    vault.outbox.publish(
        Event::SubscriptionCancelled(
            SubscriptionCancelledEvent {
                subscription_id,
                authorizer,
                refund_amount: sub.prepaid_balance,
            },
        ),
    );
    Ok(())
}

/// Pauses a subscription: no charges until it is resumed.
pub fn do_pause_subscription(
    vault: &mut SubscriptionVault,
    call: &Call,
    subscription_id: u32,
    authorizer: Address,
) -> (result: Result<(), Error>)
    requires
        call.signed_by(authorizer),
    ensures
        match status_refusal(
            old(vault)@,
            subscription_id,
            authorizer,
            SubscriptionStatus::Paused,
        ) {
            Some(e) => result == Err::<(), Error>(e) && final(vault)@ == old(vault)@,
            None => result == Ok::<(), Error>(()) && final(vault)@ == with_status(
                old(vault)@,
                subscription_id,
                SubscriptionStatus::Paused,
                Event::SubscriptionPaused(
                    SubscriptionPausedEvent { subscription_id, authorizer },
                ),
            ),
        },
{
    let mut sub = match check_status_change(
        vault,
        subscription_id,
        authorizer,
        SubscriptionStatus::Paused,
    ) {
        Ok(sub) => sub,
        Err(e) => return Err(e),
    };
    sub.status = SubscriptionStatus::Paused;
    vault.subscriptions.set(subscription_id, sub);
    vault.outbox.publish(
        Event::SubscriptionPaused(SubscriptionPausedEvent { subscription_id, authorizer }),
    );
    Ok(())
}

/// An underfunded subscription cannot be resumed while an interval is due that its balance
/// does not cover.
pub open spec fn owes_interval(sub: Subscription, now: u64) -> bool {
    &&& sub.status is InsufficientBalance
    &&& now >= sub.last_payment_timestamp + sub.interval_seconds
    &&& sub.prepaid_balance < sub.amount
}

/// Why a subscription is not resumed.
pub open spec fn resume_refusal(
    s: VaultState,
    subscription_id: u32,
    authorizer: Address,
    now: u64,
) -> Option<Error> {
    match status_refusal(s, subscription_id, authorizer, SubscriptionStatus::Active) {
        Some(e) => Some(e),
        None => if owes_interval(s.subscriptions[subscription_id], now) {
            Some(Error::InsufficientBalance)
        } else {
            None
        },
    }
}

/// Resumes a subscription to Active.
pub fn do_resume_subscription(
    vault: &mut SubscriptionVault,
    call: &Call,
    subscription_id: u32,
    authorizer: Address,
) -> (result: Result<(), Error>)
    requires
        call.signed_by(authorizer),
    ensures
        match resume_refusal(old(vault)@, subscription_id, authorizer, call.now) {
            Some(e) => result == Err::<(), Error>(e) && final(vault)@ == old(vault)@,
            None => result == Ok::<(), Error>(()) && final(vault)@ == with_status(
                old(vault)@,
                subscription_id,
                SubscriptionStatus::Active,
                Event::SubscriptionResumed(
                    SubscriptionResumedEvent { subscription_id, authorizer },
                ),
            ),
        },
{
    let mut sub = match check_status_change(
        vault,
        subscription_id,
        authorizer,
        SubscriptionStatus::Active,
    ) {
        Ok(sub) => sub,
        Err(e) => return Err(e),
    };
    if sub.status == SubscriptionStatus::InsufficientBalance {
        let due = match sub.last_payment_timestamp.checked_add(sub.interval_seconds) {
            Some(next_charge) => call.now >= next_charge,
            None => false,
        };
        if due && sub.prepaid_balance < sub.amount {
            return Err(Error::InsufficientBalance);
        }
    }
    sub.status = SubscriptionStatus::Active;
    vault.subscriptions.set(subscription_id, sub);
    vault.outbox.publish(
        Event::SubscriptionResumed(SubscriptionResumedEvent { subscription_id, authorizer }),
    );
    Ok(())
}

// ── One-off charges ──────────────────────────────────────────────────────────

/// Why a one-off charge is refused before the merchant is credited.
pub open spec fn one_off_refusal(
    s: VaultState,
    subscription_id: u32,
    merchant: Address,
    amount: i128,
) -> Option<Error> {
    match s.subscriptions.get(subscription_id) {
        None => Some(Error::NotFound),
        Some(sub) => if sub.merchant != merchant {
            Some(Error::Unauthorized)
        } else if !(sub.status is Active || sub.status is Paused) {
            Some(Error::NotActive)
        } else if amount <= 0 {
            Some(Error::InvalidAmount)
        } else if sub.prepaid_balance < amount {
            Some(Error::InsufficientPrepaidBalance)
        } else if sub.lifetime_charged + amount > i128::MAX {
            Some(Error::Overflow)
        } else if sub.lifetime_cap matches Some(cap) && sub.lifetime_charged + amount > cap {
            Some(Error::LifetimeCapReached)
        } else {
            None
        },
    }
}

/// What a one-off charge does and returns. Every refusal leaves the state as it was.
pub open spec fn one_off_charge(
    s: VaultState,
    subscription_id: u32,
    merchant: Address,
    amount: i128,
    now: u64,
) -> (VaultState, Result<(), Error>) {
    let sub = s.subscriptions[subscription_id];
    match one_off_refusal(s, subscription_id, merchant, amount) {
        Some(e) => (s, Err(e)),
        None => match credited(
            s.merchants,
            Bucket { holder: merchant, token: sub.token },
            amount,
            BillingChargeKind::OneOff,
        ) {
            Err(e) => (s, Err(e)),
            Ok(merchants) => (
                VaultState {
                    subscriptions: s.subscriptions.insert(
                        subscription_id,
                        Subscription {
                            prepaid_balance: (sub.prepaid_balance - amount) as i128,
                            lifetime_charged: (sub.lifetime_charged + amount) as i128,
                            ..sub
                        },
                    ),
                    merchants,
                    statements: with_statement(
                        s.statements,
                        statement_row(
                            s.statements,
                            subscription_id,
                            amount,
                            merchant,
                            BillingChargeKind::OneOff,
                            now,
                            now,
                            now,
                        ),
                    ),
                    outbox: s.outbox.push(
                        Effect::Publish(
                            Event::OneOffCharged(
                                OneOffChargedEvent { subscription_id, merchant, amount },
                            ),
                        ),
                    ),
                    ..s
                },
                Ok(()),
            ),
        },
    }
}

/// Merchant-initiated one-off charge: debits `amount` from the subscription's prepaid
/// balance.
///
/// Requires merchant auth; the subscription's merchant must match the caller.
/// Subscription must be Active or Paused. Amount must be positive and not exceed
/// prepaid_balance.
///
/// One-off charges also count toward the lifetime cap when one is configured.
pub fn do_charge_one_off(
    vault: &mut SubscriptionVault,
    call: &Call,
    subscription_id: u32,
    merchant: Address,
    amount: i128,
) -> (result: Result<(), Error>)
    requires
        call.signed_by(merchant),
    ensures
        (final(vault)@, result) == one_off_charge(
            old(vault)@,
            subscription_id,
            merchant,
            amount,
            call.now,
        ),
{
    let mut sub = match get_subscription(vault, subscription_id) {
        Ok(sub) => sub,
        Err(e) => return Err(e),
    };
    if sub.merchant != merchant {
        return Err(Error::Unauthorized);
    }
    if sub.status != SubscriptionStatus::Active && sub.status != SubscriptionStatus::Paused {
        return Err(Error::NotActive);
    }
    if amount <= 0 {
        return Err(Error::InvalidAmount);
    }
    if sub.prepaid_balance < amount {
        return Err(Error::InsufficientPrepaidBalance);
    }
    let new_charged: i128 = match safe_add(sub.lifetime_charged, amount) {
        Ok(total) => total,
        Err(_) => return Err(Error::Overflow),
    };
    if let Some(cap) = sub.lifetime_cap {
        if new_charged > cap {
            return Err(Error::LifetimeCapReached);
        }
    }
    match credit_merchant_balance_for_token(
        &mut vault.merchants,
        &merchant,
        &sub.token,
        amount,
        BillingChargeKind::OneOff,
    ) {
        Err(e) => return Err(e),
        Ok(()) => {},
    }
    sub.lifetime_charged = new_charged;
    sub.prepaid_balance = sub.prepaid_balance - amount;
    vault.subscriptions.set(subscription_id, sub);
    append_statement(
        &mut vault.statements,
        subscription_id,
        amount,
        merchant,
        BillingChargeKind::OneOff,
        call.now,
        call.now,
        call.now,
    );
    vault.outbox.publish(
        Event::OneOffCharged(OneOffChargedEvent { subscription_id, merchant, amount }),
    );
    Ok(())
}

// ── Withdrawals and refunds ──────────────────────────────────────────────────

/// Why a subscriber may not withdraw the prepaid balance.
pub open spec fn withdrawal_refusal(
    s: VaultState,
    subscription_id: u32,
    subscriber: Address,
) -> Option<Error> {
    match s.subscriptions.get(subscription_id) {
        None => Some(Error::NotFound),
        Some(sub) => if subscriber != sub.subscriber {
            Some(Error::Forbidden)
        } else if !(sub.status is Cancelled) {
            Some(Error::InvalidStatusTransition)
        } else {
            None
        },
    }
}

/// The state after the whole prepaid balance went back to the subscriber; nothing changes
/// where there is none.
pub open spec fn withdrawn(
    s: VaultState,
    subscription_id: u32,
    subscriber: Address,
    contract: Address,
) -> VaultState {
    let sub = s.subscriptions[subscription_id];
    if sub.prepaid_balance > 0 {
        VaultState {
            subscriptions: s.subscriptions.insert(
                subscription_id,
                Subscription { prepaid_balance: 0, ..sub },
            ),
            outbox: s.outbox.push(
                Effect::Transfer(
                    TokenTransfer {
                        token: sub.token,
                        from: contract,
                        to: subscriber,
                        amount: sub.prepaid_balance,
                    },
                ),
            ),
            ..s
        }
    } else {
        s
    }
}

/// Subscriber withdraws their remaining prepaid balance after cancellation.
pub fn do_withdraw_subscriber_funds(
    vault: &mut SubscriptionVault,
    call: &Call,
    subscription_id: u32,
    subscriber: Address,
) -> (result: Result<(), Error>)
    requires
        call.signed_by(subscriber),
    ensures
        match withdrawal_refusal(old(vault)@, subscription_id, subscriber) {
            Some(e) => result == Err::<(), Error>(e) && final(vault)@ == old(vault)@,
            None => result == Ok::<(), Error>(()) && final(vault)@ == withdrawn(
                old(vault)@,
                subscription_id,
                subscriber,
                call.contract,
            ),
        },
{
    let mut sub = match get_subscription(vault, subscription_id) {
        Ok(sub) => sub,
        Err(e) => return Err(e),
    };
    if subscriber != sub.subscriber {
        return Err(Error::Forbidden);
    }
    if sub.status != SubscriptionStatus::Cancelled {
        return Err(Error::InvalidStatusTransition);
    }
    let amount_to_refund: i128 = sub.prepaid_balance;
    if amount_to_refund > 0 {
        sub.prepaid_balance = 0;
        vault.subscriptions.set(subscription_id, sub);
        vault.outbox.transfer(
            TokenTransfer {
                token: sub.token,
                from: call.contract,
                to: subscriber,
                amount: amount_to_refund,
            },
        );
    }
    Ok(())
}

/// Why a partial refund is refused.
pub open spec fn refund_refusal(
    s: VaultState,
    admin: Address,
    subscription_id: u32,
    subscriber: Address,
    amount: i128,
) -> Option<Error> {
    match admin_refusal(s, admin) {
        Some(e) => Some(e),
        None => if amount <= 0 {
            Some(Error::InvalidAmount)
        } else {
            match s.subscriptions.get(subscription_id) {
                None => Some(Error::NotFound),
                Some(sub) => if sub.subscriber != subscriber {
                    Some(Error::Unauthorized)
                } else if amount > sub.prepaid_balance {
                    Some(Error::InsufficientBalance)
                } else {
                    None
                },
            }
        },
    }
}

/// The state after part of a prepaid balance went back to the subscriber.
pub open spec fn refunded(
    s: VaultState,
    subscription_id: u32,
    amount: i128,
    contract: Address,
    now: u64,
) -> VaultState {
    let sub = s.subscriptions[subscription_id];
    VaultState {
        subscriptions: s.subscriptions.insert(
            subscription_id,
            Subscription { prepaid_balance: (sub.prepaid_balance - amount) as i128, ..sub },
        ),
        outbox: s.outbox.push(
            Effect::Transfer(
                TokenTransfer { token: sub.token, from: contract, to: sub.subscriber, amount },
            ),
        ).push(
            Effect::Publish(
                Event::PartialRefund(
                    PartialRefundEvent {
                        subscription_id,
                        subscriber: sub.subscriber,
                        amount,
                        timestamp: now,
                    },
                ),
            ),
        ),
        ..s
    }
}

/// Process a partial refund against a subscription's remaining prepaid balance.
///
/// Only the admin may authorize partial refunds, on a subscription of any status. The
/// refunded amount is debited from the subscription's `prepaid_balance` and transferred
/// back to the subscriber.
pub fn do_partial_refund(
    vault: &mut SubscriptionVault,
    call: &Call,
    admin: Address,
    subscription_id: u32,
    subscriber: Address,
    amount: i128,
) -> (result: Result<(), Error>)
    requires
        call.signed_by(admin),
    ensures
        match refund_refusal(old(vault)@, admin, subscription_id, subscriber, amount) {
            Some(e) => result == Err::<(), Error>(e) && final(vault)@ == old(vault)@,
            None => result == Ok::<(), Error>(()) && final(vault)@ == refunded(
                old(vault)@,
                subscription_id,
                amount,
                call.contract,
                call.now,
            ),
        },
{
    match require_admin_auth(vault, call, &admin) {
        Err(e) => return Err(e),
        Ok(()) => {},
    }
    if amount <= 0 {
        return Err(Error::InvalidAmount);
    }
    let mut sub = match get_subscription(vault, subscription_id) {
        Ok(sub) => sub,
        Err(e) => return Err(e),
    };
    if sub.subscriber != subscriber {
        return Err(Error::Unauthorized);
    }
    if amount > sub.prepaid_balance {
        return Err(Error::InsufficientBalance);
    }
    sub.prepaid_balance = sub.prepaid_balance - amount;
    vault.subscriptions.set(subscription_id, sub);
    vault.outbox.transfer(
        TokenTransfer { token: sub.token, from: call.contract, to: subscriber, amount },
    );
    vault.outbox.publish(
        Event::PartialRefund(
            PartialRefundEvent { subscription_id, subscriber, amount, timestamp: call.now },
        ),
    );
    Ok(())
}

// ── Limits ───────────────────────────────────────────────────────────────────

/// Set a per-subscriber credit limit for a specific settlement token. Admin only.
///
/// The limit is expressed in token base units and applies across all of the subscriber's
/// subscriptions using that token. A limit of 0 means that there is none.
pub fn do_set_subscriber_credit_limit(
    vault: &mut SubscriptionVault,
    call: &Call,
    admin: Address,
    subscriber: Address,
    token: Address,
    limit: i128,
) -> (result: Result<(), Error>)
    requires
        call.signed_by(admin),
    ensures
        match admin_refusal(old(vault)@, admin) {
            Some(e) => result == Err::<(), Error>(e) && final(vault)@ == old(vault)@,
            None => result == Ok::<(), Error>(()) && final(vault)@ == (VaultState {
                credit_limits: old(vault)@.credit_limits.insert(
                    Bucket { holder: subscriber, token },
                    limit,
                ),
                ..old(vault)@
            }),
        },
{
    match require_admin_auth(vault, call, &admin) {
        Err(e) => return Err(e),
        Ok(()) => {},
    }
    vault.credit_limits.set(Bucket { holder: subscriber, token }, limit);
    Ok(())
}

/// Why usage limits are not configured: only the subscription's merchant may.
pub open spec fn usage_limits_refusal(
    s: VaultState,
    merchant: Address,
    subscription_id: u32,
) -> Option<Error> {
    match s.subscriptions.get(subscription_id) {
        None => Some(Error::NotFound),
        Some(sub) => if sub.merchant != merchant {
            Some(Error::Unauthorized)
        } else {
            None
        },
    }
}

/// Configure usage rate limits and caps for a subscription. Merchant only.
pub fn do_configure_usage_limits(
    vault: &mut SubscriptionVault,
    call: &Call,
    merchant: Address,
    subscription_id: u32,
    rate_limit_max_calls: Option<u32>,
    rate_window_secs: u64,
    burst_min_interval_secs: u64,
    usage_cap_units: Option<i128>,
) -> (result: Result<(), Error>)
    requires
        call.signed_by(merchant),
    ensures
        match usage_limits_refusal(old(vault)@, merchant, subscription_id) {
            Some(e) => result == Err::<(), Error>(e) && final(vault)@ == old(vault)@,
            None => result == Ok::<(), Error>(()) && final(vault)@ == (VaultState {
                usage: Usage {
                    limits: old(vault)@.usage.limits.insert(
                        subscription_id,
                        UsageLimits {
                            rate_limit_max_calls,
                            rate_window_secs,
                            burst_min_interval_secs,
                            usage_cap_units,
                        },
                    ),
                    ..old(vault)@.usage
                },
                ..old(vault)@
            }),
        },
{
    let sub = match get_subscription(vault, subscription_id) {
        Ok(sub) => sub,
        Err(e) => return Err(e),
    };
    if sub.merchant != merchant {
        return Err(Error::Unauthorized);
    }
    vault.usage.limits.set(
        subscription_id,
        UsageLimits {
            rate_limit_max_calls,
            rate_window_secs,
            burst_min_interval_secs,
            usage_cap_units,
        },
    );
    Ok(())
}

} // verus!
