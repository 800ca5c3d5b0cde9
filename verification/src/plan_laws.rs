//! What plan templates promise: their versions, their limits and migrations between them.
use crate::charge_laws::changes_one;
use crate::events::{Effect, Event, PlanTemplateUpdatedEvent, SubscriptionMigratedEvent};
use crate::lifecycle_laws::is_registered;
use crate::operation::{after, is_refused, Moment, Operation};
use crate::plan::{
    migration_refusal, plan_limit, plan_limit_refusal, plan_refusal, plan_update_refusal,
    token_plan_refusal,
};
use crate::price_laws::accepted_tokens_are_registered;
use crate::types::{Address, Error, PlanTemplate};
use crate::vault::VaultState;
use vstd::prelude::*;

verus! {

/// A cap that is not positive.
pub open spec fn is_empty_cap(lifetime_cap: Option<i128>) -> bool {
    lifetime_cap is Some && lifetime_cap->Some_0 <= 0
}

/// A template was added under the next plan number, and no other template changed.
pub open spec fn takes_the_next_plan_number(s: VaultState, t: VaultState) -> bool {
    &&& t.next_plan_id == s.next_plan_id + 1
    &&& t.plans == s.plans.insert(s.next_plan_id, t.plans[s.next_plan_id])
}

/// The template carries these terms.
pub open spec fn has_terms(
    plan: PlanTemplate,
    amount: i128,
    interval_seconds: u64,
    usage_enabled: bool,
    lifetime_cap: Option<i128>,
) -> bool {
    &&& plan.amount == amount
    &&& plan.interval_seconds == interval_seconds
    &&& plan.usage_enabled == usage_enabled
    &&& plan.lifetime_cap == lifetime_cap
}

/// A new plan is refused with a cap that is not positive (`InvalidAmount`), and in the vault's
/// own token before the vault is set up (`NotInitialized`) or in another token that is not
/// registered (`InvalidInput`, checked before the cap).
pub proof fn new_plans_are_checked_in_order(
    s: VaultState,
    token: Address,
    lifetime_cap: Option<i128>,
)
    ensures
        plan_refusal(s, lifetime_cap) == if is_empty_cap(lifetime_cap) {
            Some(Error::InvalidAmount)
        } else if s.config.token is None {
            Some(Error::NotInitialized)
        } else {
            None
        },
        token_plan_refusal(s, token, lifetime_cap) == if !is_registered(s, token) {
            Some(Error::InvalidInput)
        } else if is_empty_cap(lifetime_cap) {
            Some(Error::InvalidAmount)
        } else {
            None
        },
{
    accepted_tokens_are_registered(s, token);
}

/// A new plan has the terms that were asked for, in the vault's own token; it is the first
/// version of a template of its own, named by its number. Nothing else changes.
pub proof fn new_plan_has_the_terms_asked_for(
    s: VaultState,
    m: Moment,
    merchant: Address,
    amount: i128,
    interval_seconds: u64,
    usage_enabled: bool,
    lifetime_cap: Option<i128>,
)
    requires
        s.next_plan_id < u32::MAX,
    ensures
        ({
            let t = after(
                s,
                m,
                Operation::CreatePlanTemplate {
                    merchant,
                    amount,
                    interval_seconds,
                    usage_enabled,
                    lifetime_cap,
                },
            );
            let plan = t.plans[s.next_plan_id];
            if plan_refusal(s, lifetime_cap) is Some {
                t == s
            } else {
                &&& takes_the_next_plan_number(s, t)
                &&& has_terms(plan, amount, interval_seconds, usage_enabled, lifetime_cap)
                &&& plan.merchant == merchant
                &&& s.config.token == Some(plan.token)
                &&& plan.template_key == s.next_plan_id
                &&& plan.version == 1
                &&& t == (VaultState { next_plan_id: t.next_plan_id, plans: t.plans, ..s })
            }
        }),
{
    reveal(is_refused);
}

/// A new plan in a token of the merchant's choice has the terms that were asked for, in that
/// token; it is the first version of a template of its own, named by its number. Nothing
/// else changes.
pub proof fn new_token_plan_has_the_terms_asked_for(
    s: VaultState,
    m: Moment,
    merchant: Address,
    token: Address,
    amount: i128,
    interval_seconds: u64,
    usage_enabled: bool,
    lifetime_cap: Option<i128>,
)
    requires
        s.next_plan_id < u32::MAX,
    ensures
        ({
            let t = after(
                s,
                m,
                Operation::CreatePlanTemplateWithToken {
                    merchant,
                    token,
                    amount,
                    interval_seconds,
                    usage_enabled,
                    lifetime_cap,
                },
            );
            let plan = t.plans[s.next_plan_id];
            if token_plan_refusal(s, token, lifetime_cap) is Some {
                t == s
            } else {
                &&& takes_the_next_plan_number(s, t)
                &&& has_terms(plan, amount, interval_seconds, usage_enabled, lifetime_cap)
                &&& plan.merchant == merchant
                &&& plan.token == token
                &&& plan.template_key == s.next_plan_id
                &&& plan.version == 1
                &&& t == (VaultState { next_plan_id: t.next_plan_id, plans: t.plans, ..s })
            }
        }),
{
    reveal(is_refused);
}

/// An update of a plan is refused with a cap that is not positive (`InvalidAmount`), of an
/// unknown plan (`NotFound`) and to anyone but its merchant (`Forbidden`), in this order.
pub proof fn plan_updates_are_checked_in_order(
    s: VaultState,
    merchant: Address,
    plan_template_id: u32,
    lifetime_cap: Option<i128>,
)
    ensures
        plan_update_refusal(s, merchant, plan_template_id, lifetime_cap) == if is_empty_cap(
            lifetime_cap,
        ) {
            Some(Error::InvalidAmount)
        } else if !s.plans.contains_key(plan_template_id) {
            Some(Error::NotFound)
        } else if s.plans[plan_template_id].merchant != merchant {
            Some(Error::Forbidden)
        } else {
            None
        },
{
}

/// An update adds a version and leaves the one before as it was: the new template has the
/// new terms under the next plan number, with the merchant, token and template of the old one
/// and the next version, and is announced so. No subscription changes.
pub proof fn plan_update_adds_a_version(
    s: VaultState,
    m: Moment,
    merchant: Address,
    plan_template_id: u32,
    amount: i128,
    interval_seconds: u64,
    usage_enabled: bool,
    lifetime_cap: Option<i128>,
)
    requires
        s.next_plan_id < u32::MAX,
        s.plans[plan_template_id].version < u32::MAX,
    ensures
        ({
            let t = after(
                s,
                m,
                Operation::UpdatePlanTemplate {
                    merchant,
                    plan_template_id,
                    amount,
                    interval_seconds,
                    usage_enabled,
                    lifetime_cap,
                },
            );
            let old_plan = s.plans[plan_template_id];
            let plan = t.plans[s.next_plan_id];
            if plan_update_refusal(s, merchant, plan_template_id, lifetime_cap) is Some {
                t == s
            } else {
                &&& takes_the_next_plan_number(s, t)
                &&& has_terms(plan, amount, interval_seconds, usage_enabled, lifetime_cap)
                &&& plan.merchant == old_plan.merchant
                &&& plan.token == old_plan.token
                &&& plan.template_key == old_plan.template_key
                &&& plan.version == old_plan.version + 1
                &&& t.outbox == s.outbox.push(
                    Effect::Publish(
                        Event::PlanTemplateUpdated(
                            PlanTemplateUpdatedEvent {
                                template_key: old_plan.template_key,
                                old_plan_id: plan_template_id,
                                new_plan_id: s.next_plan_id,
                                version: plan.version,
                                merchant: old_plan.merchant,
                                timestamp: m.now,
                            },
                        ),
                    ),
                )
                &&& t == (VaultState {
                    next_plan_id: t.next_plan_id,
                    plans: t.plans,
                    outbox: t.outbox,
                    ..s
                })
            }
        }),
{
    reveal(is_refused);
}

/// Only the merchant of a plan sets its limit of active subscriptions; it is stored as given
/// and nothing else changes.
pub proof fn plan_limit_is_stored(
    s: VaultState,
    m: Moment,
    merchant: Address,
    plan_template_id: u32,
    max_active: u32,
)
    ensures
        plan_limit_refusal(s, merchant, plan_template_id) == if !s.plans.contains_key(
            plan_template_id,
        ) {
            Some(Error::NotFound)
        } else if s.plans[plan_template_id].merchant != merchant {
            Some(Error::Forbidden)
        } else {
            None
        },
        ({
            let t = after(
                s,
                m,
                Operation::SetPlanMaxActiveSubs { merchant, plan_template_id, max_active },
            );
            if s.plans.contains_key(plan_template_id) && s.plans[plan_template_id].merchant
                == merchant {
                &&& t.plan_limits == s.plan_limits.insert(plan_template_id, max_active)
                &&& t == (VaultState { plan_limits: t.plan_limits, ..s })
            } else {
                t == s
            }
        }),
{
    reveal(is_refused);
}

/// A plan's limit is reported as it was set, and as none where it never was.
pub proof fn plan_limit_is_reported(s: VaultState, plan_template_id: u32)
    ensures
        s.plan_limits.contains_key(plan_template_id) ==> plan_limit(s, plan_template_id)
            == s.plan_limits[plan_template_id],
        !s.plan_limits.contains_key(plan_template_id) ==> plan_limit(s, plan_template_id) == 0,
{
}

/// A migration is refused in this order: of an unknown subscription with `NotFound`, to
/// anyone but its subscriber with `Forbidden`, of one without a plan with `InvalidInput`,
/// from or to an unknown plan with `NotFound`, to another template, to a version that is not
/// later or to another token with `InvalidInput`, and to a cap that the charged total has
/// passed with `LifetimeCapReached`.
pub proof fn migration_is_checked_in_order(
    s: VaultState,
    subscriber: Address,
    id: u32,
    new_plan_template_id: u32,
)
    ensures
        ({
            let refusal = migration_refusal(s, subscriber, id, new_plan_template_id);
            let sub = s.subscriptions[id];
            let old_plan = s.plans[s.plan_of[id]];
            let plan = s.plans[new_plan_template_id];
            if !s.subscriptions.contains_key(id) {
                refusal == Some(Error::NotFound)
            } else if sub.subscriber != subscriber {
                refusal == Some(Error::Forbidden)
            } else if !s.plan_of.contains_key(id) {
                refusal == Some(Error::InvalidInput)
            } else if !s.plans.contains_key(s.plan_of[id]) || !s.plans.contains_key(
                new_plan_template_id,
            ) {
                refusal == Some(Error::NotFound)
            } else if plan.template_key != old_plan.template_key || plan.version
                <= old_plan.version || plan.token != sub.token {
                refusal == Some(Error::InvalidInput)
            } else if plan.lifetime_cap is Some && plan.lifetime_cap->Some_0
                < sub.lifetime_charged {
                refusal == Some(Error::LifetimeCapReached)
            } else {
                refusal is None
            }
        }),
{
}

/// A migration gives a subscription the amount, interval, metering and cap of the new plan
/// and nothing else: parties, token, status, balance, charged total and time of the last
/// payment stay. It is noted as one of the new plan and announced so.
pub proof fn migration_takes_the_new_terms(
    s: VaultState,
    m: Moment,
    subscriber: Address,
    id: u32,
    new_plan_template_id: u32,
)
    ensures
        ({
            let t = after(
                s,
                m,
                Operation::MigrateSubscriptionToPlan {
                    subscriber,
                    subscription_id: id,
                    new_plan_template_id,
                },
            );
            let before = s.subscriptions[id];
            let sub = t.subscriptions[id];
            let plan = s.plans[new_plan_template_id];
            if migration_refusal(s, subscriber, id, new_plan_template_id) is Some {
                t == s
            } else {
                &&& changes_one(s, t, id)
                &&& sub.amount == plan.amount
                &&& sub.interval_seconds == plan.interval_seconds
                &&& sub.usage_enabled == plan.usage_enabled
                &&& sub.lifetime_cap == plan.lifetime_cap
                &&& sub.subscriber == before.subscriber
                &&& sub.merchant == before.merchant
                &&& sub.token == before.token
                &&& sub.status == before.status
                &&& sub.prepaid_balance == before.prepaid_balance
                &&& sub.lifetime_charged == before.lifetime_charged
                &&& sub.last_payment_timestamp == before.last_payment_timestamp
                &&& t.plan_of == s.plan_of.insert(id, new_plan_template_id)
                &&& t.outbox == s.outbox.push(
                    Effect::Publish(
                        Event::SubscriptionMigrated(
                            SubscriptionMigratedEvent {
                                subscription_id: id,
                                template_key: plan.template_key,
                                from_plan_id: s.plan_of[id],
                                to_plan_id: new_plan_template_id,
                                merchant: plan.merchant,
                                subscriber: before.subscriber,
                                timestamp: m.now,
                            },
                        ),
                    ),
                )
                &&& t == (VaultState {
                    subscriptions: t.subscriptions,
                    plan_of: t.plan_of,
                    outbox: t.outbox,
                    ..s
                })
            }
        }),
{
    reveal(is_refused);
    let t = after(
        s,
        m,
        Operation::MigrateSubscriptionToPlan {
            subscriber,
            subscription_id: id,
            new_plan_template_id,
        },
    );
    assert(t.subscriptions.dom() =~= s.subscriptions.dom());
}

} // verus!
