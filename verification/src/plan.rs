//! Plan templates: reusable offers with versions, and the subscriptions made from them.
//!
//! A template never changes once created. An update creates a new template of the same
//! family with the next version, and subscriptions move to it only when their subscriber
//! asks for it.
use crate::admin::{get_token, is_accepted, is_token_accepted};
use crate::events::{Effect, Event, PlanTemplateUpdatedEvent, SubscriptionMigratedEvent};
use crate::queries::get_subscription;
use crate::subscription::{
    cap_is_valid, check_credit, credit_refusal, is_valid_cap, new_subscription, next_plan_id,
    store_subscription, with_subscription, MAX_SUBSCRIPTION_ID,
};
use crate::types::{
    Address, Bucket, Call, Error, PlanTemplate, Subscription, SubscriptionStatus,
};
use crate::vault::{SubscriptionVault, VaultState};
use vstd::prelude::*;

verus! {

/// A plan template by its id.
pub open spec fn plan_found(s: VaultState, plan_template_id: u32) -> Result<PlanTemplate, Error> {
    match s.plans.get(plan_template_id) {
        Some(plan) => Ok(plan),
        None => Err(Error::NotFound),
    }
}

/// Retrieves a plan template by its ID.
pub fn get_plan_template(
    vault: &SubscriptionVault,
    plan_template_id: u32,
) -> (result: Result<PlanTemplate, Error>)
    ensures
        result == plan_found(vault@, plan_template_id),
{
    match vault.plans.get(plan_template_id) {
        Some(plan) => Ok(plan),
        None => Err(Error::NotFound),
    }
}

/// The state with `plan` stored under the next plan id.
pub open spec fn with_plan(s: VaultState, plan: PlanTemplate) -> VaultState {
    VaultState {
        next_plan_id: (s.next_plan_id + 1) as u32,
        plans: s.plans.insert(s.next_plan_id, plan),
        ..s
    }
}

/// The first version of a plan, stored under the next plan id.
pub open spec fn first_version(
    s: VaultState,
    merchant: Address,
    token: Address,
    amount: i128,
    interval_seconds: u64,
    usage_enabled: bool,
    lifetime_cap: Option<i128>,
) -> PlanTemplate {
    PlanTemplate {
        merchant,
        token,
        amount,
        interval_seconds,
        usage_enabled,
        lifetime_cap,
        template_key: s.next_plan_id,
        version: 1,
    }
}

/// Stores the first version of a plan.
fn store_first_version(
    vault: &mut SubscriptionVault,
    merchant: Address,
    token: Address,
    amount: i128,
    interval_seconds: u64,
    usage_enabled: bool,
    lifetime_cap: Option<i128>,
) -> (plan_id: u32)
    requires
        old(vault)@.next_plan_id < u32::MAX,
    ensures
        plan_id == old(vault)@.next_plan_id,
        final(vault)@ == with_plan(
            old(vault)@,
            first_version(
                old(vault)@,
                merchant,
                token,
                amount,
                interval_seconds,
                usage_enabled,
                lifetime_cap,
            ),
        ),
{
    let plan_id: u32 = next_plan_id(vault);
    vault.plans.set(
        plan_id,
        PlanTemplate {
            merchant,
            token,
            amount,
            interval_seconds,
            usage_enabled,
            lifetime_cap,
            template_key: plan_id,
            version: 1,
        },
    );
    plan_id
}

/// Why a plan in the default token is not created.
pub open spec fn plan_refusal(s: VaultState, lifetime_cap: Option<i128>) -> Option<Error> {
    if !is_valid_cap(lifetime_cap) {
        Some(Error::InvalidAmount)
    } else if s.config.token is None {
        Some(Error::NotInitialized)
    } else {
        None
    }
}

/// Creates a plan template in the default token.
pub fn do_create_plan_template(
    vault: &mut SubscriptionVault,
    call: &Call,
    merchant: Address,
    amount: i128,
    interval_seconds: u64,
    usage_enabled: bool,
    lifetime_cap: Option<i128>,
) -> (result: Result<u32, Error>)
    requires
        call.signed_by(merchant),
        plan_refusal(old(vault)@, lifetime_cap) is None ==> old(vault)@.next_plan_id < u32::MAX,
    ensures
        match plan_refusal(old(vault)@, lifetime_cap) {
            Some(e) => result == Err::<u32, Error>(e) && final(vault)@ == old(vault)@,
            None => result == Ok::<u32, Error>(old(vault)@.next_plan_id) && final(vault)@
                == with_plan(
                old(vault)@,
                first_version(
                    old(vault)@,
                    merchant,
                    old(vault)@.config.token->Some_0,
                    amount,
                    interval_seconds,
                    usage_enabled,
                    lifetime_cap,
                ),
            ),
        },
{
    if !cap_is_valid(&lifetime_cap) {
        return Err(Error::InvalidAmount);
    }
    let token = match get_token(vault) {
        Ok(token) => token,
        Err(e) => return Err(e),
    };
    let plan_id: u32 = store_first_version(
        vault,
        merchant,
        token,
        amount,
        interval_seconds,
        usage_enabled,
        lifetime_cap,
    );
    Ok(plan_id)
}

/// Why a plan in a given token is not created.
pub open spec fn token_plan_refusal(
    s: VaultState,
    token: Address,
    lifetime_cap: Option<i128>,
) -> Option<Error> {
    if !is_accepted(s, token) {
        Some(Error::InvalidInput)
    } else if !is_valid_cap(lifetime_cap) {
        Some(Error::InvalidAmount)
    } else {
        None
    }
}

/// Creates a token-specific plan template.
pub fn do_create_plan_template_with_token(
    vault: &mut SubscriptionVault,
    call: &Call,
    merchant: Address,
    token: Address,
    amount: i128,
    interval_seconds: u64,
    usage_enabled: bool,
    lifetime_cap: Option<i128>,
) -> (result: Result<u32, Error>)
    requires
        call.signed_by(merchant),
        token_plan_refusal(old(vault)@, token, lifetime_cap) is None ==> old(vault)@.next_plan_id
            < u32::MAX,
    ensures
        match token_plan_refusal(old(vault)@, token, lifetime_cap) {
            Some(e) => result == Err::<u32, Error>(e) && final(vault)@ == old(vault)@,
            None => result == Ok::<u32, Error>(old(vault)@.next_plan_id) && final(vault)@
                == with_plan(
                old(vault)@,
                first_version(
                    old(vault)@,
                    merchant,
                    token,
                    amount,
                    interval_seconds,
                    usage_enabled,
                    lifetime_cap,
                ),
            ),
        },
{
    if !is_token_accepted(vault, &token) {
        return Err(Error::InvalidInput);
    }
    if !cap_is_valid(&lifetime_cap) {
        return Err(Error::InvalidAmount);
    }
    let plan_id: u32 = store_first_version(
        vault,
        merchant,
        token,
        amount,
        interval_seconds,
        usage_enabled,
        lifetime_cap,
    );
    Ok(plan_id)
}

/// Whether a subscription is an active one of a subscriber on a plan.
pub open spec fn is_active_on(
    s: VaultState,
    subscription_id: u32,
    subscriber: Address,
    plan_template_id: u32,
) -> bool {
    &&& s.plan_of.get(subscription_id) == Some(plan_template_id)
    &&& s.subscriptions.get(subscription_id) matches Some(sub)
    &&& sub.subscriber == subscriber
    &&& sub.status is Active
}

/// How many subscriptions with an id below `end` are active ones of a subscriber on a plan.
pub open spec fn active_below(
    s: VaultState,
    subscriber: Address,
    plan_template_id: u32,
    end: nat,
) -> nat
    decreases end,
{
    if end == 0 {
        0
    } else {
        let before = active_below(s, subscriber, plan_template_id, (end - 1) as nat);
        if is_active_on(s, (end - 1) as u32, subscriber, plan_template_id) {
            before + 1
        } else {
            before
        }
    }
}

/// How many active subscriptions to a plan one subscriber may hold; 0 means any number.
pub open spec fn plan_limit(s: VaultState, plan_template_id: u32) -> u32 {
    match s.plan_limits.get(plan_template_id) {
        Some(limit) => limit,
        None => 0,
    }
}

/// A subscriber already holds as many active subscriptions to a plan as it allows.
pub open spec fn plan_is_full(s: VaultState, subscriber: Address, plan_template_id: u32) -> bool {
    let limit = plan_limit(s, plan_template_id);
    limit != 0 && active_below(s, subscriber, plan_template_id, s.next_id as nat) >= limit
}

/// Why no subscription is made from a plan.
pub open spec fn from_plan_refusal(
    s: VaultState,
    subscriber: Address,
    plan_template_id: u32,
) -> Option<Error> {
    match s.plans.get(plan_template_id) {
        None => Some(Error::NotFound),
        Some(plan) => if plan_is_full(s, subscriber, plan_template_id) {
            Some(Error::MaxConcurrentSubscriptionsReached)
        } else {
            match credit_refusal(
                s,
                Bucket { holder: subscriber, token: plan.token },
                plan.amount,
            ) {
                Some(e) => Some(e),
                None => if s.next_id == MAX_SUBSCRIPTION_ID {
                    Some(Error::SubscriptionLimitReached)
                } else {
                    None
                },
            }
        },
    }
}

/// The subscription that a plan makes.
pub open spec fn planned(subscriber: Address, plan: PlanTemplate, now: u64) -> Subscription {
    new_subscription(
        subscriber,
        plan.merchant,
        plan.token,
        plan.amount,
        plan.interval_seconds,
        plan.usage_enabled,
        plan.lifetime_cap,
        now,
    )
}

/// Returns the configured max-active-subscriptions limit for a plan template.
///
/// A return value of `0` means no limit is enforced for that plan.
pub fn get_plan_max_active_subs(vault: &SubscriptionVault, plan_template_id: u32) -> (limit: u32)
    ensures
        limit == plan_limit(vault@, plan_template_id),
{
    match vault.plan_limits.get(plan_template_id) {
        Some(limit) => limit,
        None => 0,
    }
}

/// Counts a subscriber's active subscriptions to a plan.
fn count_active(
    vault: &SubscriptionVault,
    subscriber: Address,
    plan_template_id: u32,
) -> (count: u32)
    ensures
        count == active_below(vault@, subscriber, plan_template_id, vault@.next_id as nat),
{
    let mut count: u32 = 0;
    let mut id: u32 = 0;
    while id < vault.next_id
        invariant
            id <= vault.next_id,
            count <= id,
            count == active_below(vault@, subscriber, plan_template_id, id as nat),
        decreases vault.next_id - id,
    {
        if let Some(plan) = vault.plan_of.get(id) {
            if plan == plan_template_id {
                if let Some(sub) = vault.subscriptions.get(id) {
                    if sub.subscriber == subscriber && sub.status == SubscriptionStatus::Active {
                        count = count + 1;
                    }
                }
            }
        }
        id = id + 1;
    }
    count
}

/// Creates a subscription from a predefined plan template.
pub fn do_create_subscription_from_plan(
    vault: &mut SubscriptionVault,
    call: &Call,
    subscriber: Address,
    plan_template_id: u32,
) -> (result: Result<u32, Error>)
    requires
        call.signed_by(subscriber),
    ensures
        match from_plan_refusal(old(vault)@, subscriber, plan_template_id) {
            Some(e) => result == Err::<u32, Error>(e) && final(vault)@ == old(vault)@,
            None => result == Ok::<u32, Error>(old(vault)@.next_id) && final(vault)@
                == (VaultState {
                plan_of: old(vault)@.plan_of.insert(old(vault)@.next_id, plan_template_id),
                ..with_subscription(
                    old(vault)@,
                    planned(subscriber, old(vault)@.plans[plan_template_id], call.now),
                )
            }),
        },
{
    let plan = match get_plan_template(vault, plan_template_id) {
        Ok(plan) => plan,
        Err(e) => return Err(e),
    };
    let limit: u32 = get_plan_max_active_subs(vault, plan_template_id);
    if limit != 0 && count_active(vault, subscriber, plan_template_id) >= limit {
        return Err(Error::MaxConcurrentSubscriptionsReached);
    }
    match check_credit(vault, subscriber, plan.token, plan.amount) {
        Err(e) => return Err(e),
        Ok(()) => {},
    }
    if vault.next_id == MAX_SUBSCRIPTION_ID {
        return Err(Error::SubscriptionLimitReached);
    }
    let id: u32 = store_subscription(
        vault,
        Subscription {
            subscriber,
            merchant: plan.merchant,
            token: plan.token,
            amount: plan.amount,
            interval_seconds: plan.interval_seconds,
            last_payment_timestamp: call.now,
            status: SubscriptionStatus::Active,
            prepaid_balance: 0,
            usage_enabled: plan.usage_enabled,
            lifetime_cap: plan.lifetime_cap,
            lifetime_charged: 0,
        },
    );
    vault.plan_of.set(id, plan_template_id);
    Ok(id)
}

/// Why a plan gets no new version.
pub open spec fn plan_update_refusal(
    s: VaultState,
    merchant: Address,
    plan_template_id: u32,
    lifetime_cap: Option<i128>,
) -> Option<Error> {
    if !is_valid_cap(lifetime_cap) {
        Some(Error::InvalidAmount)
    } else {
        match s.plans.get(plan_template_id) {
            None => Some(Error::NotFound),
            Some(plan) => if plan.merchant != merchant {
                Some(Error::Forbidden)
            } else {
                None
            },
        }
    }
}

/// The version that follows `existing`: same family and token, next version.
pub open spec fn next_version(
    existing: PlanTemplate,
    amount: i128,
    interval_seconds: u64,
    usage_enabled: bool,
    lifetime_cap: Option<i128>,
) -> PlanTemplate {
    PlanTemplate {
        amount,
        interval_seconds,
        usage_enabled,
        lifetime_cap,
        version: (existing.version + 1) as u32,
        ..existing
    }
}

/// The state once a plan got a new version.
pub open spec fn plan_updated(
    s: VaultState,
    plan_template_id: u32,
    updated: PlanTemplate,
    now: u64,
) -> VaultState {
    VaultState {
        outbox: s.outbox.push(
            Effect::Publish(
                Event::PlanTemplateUpdated(
                    PlanTemplateUpdatedEvent {
                        template_key: updated.template_key,
                        old_plan_id: plan_template_id,
                        new_plan_id: s.next_plan_id,
                        version: updated.version,
                        merchant: updated.merchant,
                        timestamp: now,
                    },
                ),
            ),
        ),
        ..with_plan(s, updated)
    }
}

/// Updates an existing plan template by creating a new version.
///
/// The existing template stays as it is. The new one shares its `template_key` and has the
/// next `version`. Existing subscriptions continue to use their own template until
/// explicitly migrated.
pub fn do_update_plan_template(
    vault: &mut SubscriptionVault,
    call: &Call,
    merchant: Address,
    plan_template_id: u32,
    amount: i128,
    interval_seconds: u64,
    usage_enabled: bool,
    lifetime_cap: Option<i128>,
) -> (result: Result<u32, Error>)
    requires
        call.signed_by(merchant),
        plan_update_refusal(old(vault)@, merchant, plan_template_id, lifetime_cap) is None ==> {
            &&& old(vault)@.next_plan_id < u32::MAX
            &&& old(vault)@.plans[plan_template_id].version < u32::MAX
        },
    ensures
        match plan_update_refusal(old(vault)@, merchant, plan_template_id, lifetime_cap) {
            Some(e) => result == Err::<u32, Error>(e) && final(vault)@ == old(vault)@,
            None => result == Ok::<u32, Error>(old(vault)@.next_plan_id) && final(vault)@
                == plan_updated(
                old(vault)@,
                plan_template_id,
                next_version(
                    old(vault)@.plans[plan_template_id],
                    amount,
                    interval_seconds,
                    usage_enabled,
                    lifetime_cap,
                ),
                call.now,
            ),
        },
{
    if !cap_is_valid(&lifetime_cap) {
        return Err(Error::InvalidAmount);
    }
    let existing = match get_plan_template(vault, plan_template_id) {
        Ok(plan) => plan,
        Err(e) => return Err(e),
    };
    if existing.merchant != merchant {
        return Err(Error::Forbidden);
    }
    // The token stays: another one would be a different plan family.
    let new_plan_id: u32 = next_plan_id(vault);
    let new_version: u32 = existing.version + 1;
    vault.plans.set(
        new_plan_id,
        PlanTemplate {
            merchant,
            token: existing.token,
            amount,
            interval_seconds,
            usage_enabled,
            lifetime_cap,
            template_key: existing.template_key,
            version: new_version,
        },
    );
    vault.outbox.publish(
        Event::PlanTemplateUpdated(
            PlanTemplateUpdatedEvent {
                template_key: existing.template_key,
                old_plan_id: plan_template_id,
                new_plan_id,
                version: new_version,
                merchant,
                timestamp: call.now,
            },
        ),
    );
    Ok(new_plan_id)
}

/// Why the limit of a plan is not set: only the plan's merchant may.
pub open spec fn plan_limit_refusal(
    s: VaultState,
    merchant: Address,
    plan_template_id: u32,
) -> Option<Error> {
    match s.plans.get(plan_template_id) {
        None => Some(Error::NotFound),
        Some(plan) => if plan.merchant != merchant {
            Some(Error::Forbidden)
        } else {
            None
        },
    }
}

/// Configure the maximum number of concurrent active subscriptions a subscriber may hold
/// for a given plan template.
///
/// When `max_active` is zero, no limit is enforced for that plan. Only the plan's merchant
/// may call this.
pub fn do_set_plan_max_active_subs(
    vault: &mut SubscriptionVault,
    call: &Call,
    merchant: Address,
    plan_template_id: u32,
    max_active: u32,
) -> (result: Result<(), Error>)
    requires
        call.signed_by(merchant),
    ensures
        match plan_limit_refusal(old(vault)@, merchant, plan_template_id) {
            Some(e) => result == Err::<(), Error>(e) && final(vault)@ == old(vault)@,
            None => result == Ok::<(), Error>(()) && final(vault)@ == (VaultState {
                plan_limits: old(vault)@.plan_limits.insert(plan_template_id, max_active),
                ..old(vault)@
            }),
        },
{
    let plan = match get_plan_template(vault, plan_template_id) {
        Ok(plan) => plan,
        Err(e) => return Err(e),
    };
    if plan.merchant != merchant {
        return Err(Error::Forbidden);
    }
    vault.plan_limits.set(plan_template_id, max_active);
    Ok(())
}

/// Why a subscription is not moved to another plan version. It must come from a plan, and
/// the other one must be a later version of the same family in the same token, whose cap
/// the subscription has not exceeded.
pub open spec fn migration_refusal(
    s: VaultState,
    subscriber: Address,
    subscription_id: u32,
    new_plan_template_id: u32,
) -> Option<Error> {
    match s.subscriptions.get(subscription_id) {
        None => Some(Error::NotFound),
        Some(sub) => if sub.subscriber != subscriber {
            Some(Error::Forbidden)
        } else {
            match s.plan_of.get(subscription_id) {
                None => Some(Error::InvalidInput),
                Some(current_plan_id) => match (
                    s.plans.get(current_plan_id),
                    s.plans.get(new_plan_template_id),
                ) {
                    (Some(current), Some(new_plan)) => if current.template_key
                        != new_plan.template_key {
                        Some(Error::InvalidInput)
                    } else if new_plan.version <= current.version {
                        Some(Error::InvalidInput)
                    } else if new_plan.token != sub.token {
                        Some(Error::InvalidInput)
                    } else if new_plan.lifetime_cap matches Some(cap) && sub.lifetime_charged
                        > cap {
                        Some(Error::LifetimeCapReached)
                    } else {
                        None
                    },
                    _ => Some(Error::NotFound),
                },
            }
        },
    }
}

/// The state after a subscription took over the terms of another plan version.
pub open spec fn migrated(
    s: VaultState,
    subscription_id: u32,
    new_plan_template_id: u32,
    now: u64,
) -> VaultState {
    let sub = s.subscriptions[subscription_id];
    let plan = s.plans[new_plan_template_id];
    VaultState {
        subscriptions: s.subscriptions.insert(
            subscription_id,
            Subscription {
                amount: plan.amount,
                interval_seconds: plan.interval_seconds,
                usage_enabled: plan.usage_enabled,
                lifetime_cap: plan.lifetime_cap,
                ..sub
            },
        ),
        plan_of: s.plan_of.insert(subscription_id, new_plan_template_id),
        outbox: s.outbox.push(
            Effect::Publish(
                Event::SubscriptionMigrated(
                    SubscriptionMigratedEvent {
                        subscription_id,
                        template_key: plan.template_key,
                        from_plan_id: s.plan_of[subscription_id],
                        to_plan_id: new_plan_template_id,
                        merchant: plan.merchant,
                        subscriber: sub.subscriber,
                        timestamp: now,
                    },
                ),
            ),
        ),
        ..s
    }
}

/// Migrates an existing subscription to a newer version of the same plan template.
///
/// The subscriber must authorize this call. Migration is only allowed between plan versions
/// that share the same `template_key`, and only from an older version to a newer one. The
/// settlement token cannot change as part of migration, and lifetime caps are validated for
/// compatibility.
pub fn do_migrate_subscription_to_plan(
    vault: &mut SubscriptionVault,
    call: &Call,
    subscriber: Address,
    subscription_id: u32,
    new_plan_template_id: u32,
) -> (result: Result<(), Error>)
    requires
        call.signed_by(subscriber),
    ensures
        match migration_refusal(
            old(vault)@,
            subscriber,
            subscription_id,
            new_plan_template_id,
        ) {
            Some(e) => result == Err::<(), Error>(e) && final(vault)@ == old(vault)@,
            None => result == Ok::<(), Error>(()) && final(vault)@ == migrated(
                old(vault)@,
                subscription_id,
                new_plan_template_id,
                call.now,
            ),
        },
{
    let mut sub = match get_subscription(vault, subscription_id) {
        Ok(sub) => sub,
        Err(e) => return Err(e),
    };
    if sub.subscriber != subscriber {
        return Err(Error::Forbidden);
    }
    // Resolve the plan the subscription is pinned to (if any).
    let current_plan_id: u32 = match vault.plan_of.get(subscription_id) {
        Some(id) => id,
        None => return Err(Error::InvalidInput),
    };
    let current_plan = match get_plan_template(vault, current_plan_id) {
        Ok(plan) => plan,
        Err(e) => return Err(e),
    };
    let new_plan = match get_plan_template(vault, new_plan_template_id) {
        Ok(plan) => plan,
        Err(e) => return Err(e),
    };
    // Stay within the same logical template family.
    if current_plan.template_key != new_plan.template_key {
        return Err(Error::InvalidInput);
    }
    // Only upgrades to newer versions.
    if new_plan.version <= current_plan.version {
        return Err(Error::InvalidInput);
    }
    if new_plan.token != sub.token {
        return Err(Error::InvalidInput);
    }
    // No move into a cap that is already exceeded.
    if let Some(cap) = new_plan.lifetime_cap {
        if sub.lifetime_charged > cap {
            return Err(Error::LifetimeCapReached);
        }
    }
    sub.lifetime_cap = new_plan.lifetime_cap;
    sub.amount = new_plan.amount;
    sub.interval_seconds = new_plan.interval_seconds;
    sub.usage_enabled = new_plan.usage_enabled;
    vault.subscriptions.set(subscription_id, sub);
    vault.plan_of.set(subscription_id, new_plan_template_id);
    vault.outbox.publish(
        Event::SubscriptionMigrated(
            SubscriptionMigratedEvent {
                subscription_id,
                template_key: new_plan.template_key,
                from_plan_id: current_plan_id,
                to_plan_id: new_plan_template_id,
                merchant: new_plan.merchant,
                subscriber,
                timestamp: call.now,
            },
        ),
    );
    Ok(())
}

} // verus!
