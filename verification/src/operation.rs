//! Everything that can happen to a vault, as one relation between states.
use crate::admin::{
    accepting, admin_refusal, initialized_with, position_of, recovered, recovery_refusal,
    rotated, token_removal_refusal,
};
use crate::blocklist::{blocked, may_block, unblock_refusal};
use crate::charge_core::{has_period, interval_charge, usage_charge};
use crate::contract::{with_compaction, with_stop};
use crate::events::{
    BlocklistRemovedEvent, ContractSnapshotEvent, Effect, EmergencyStopDisabledEvent,
    EmergencyStopEnabledEvent, Event, MetadataDeletedEvent, MetadataSetEvent,
    SubscriptionPausedEvent, SubscriptionResumedEvent,
};
use crate::merchant::{
    merchant_refund_refusal, merchant_refunded, paid_out, payout_refusal, with_pause,
    Merchants, MAX_REDIRECT_URL_LENGTH,
};
use crate::metadata::{delete_refusal, set_refusal, with_entry, without_entry};
use crate::migration::{
    export_event, export_refusal, exported_ids, exports_refusal, snapshot_refusal,
};
use crate::oracle::oracle_config_refusal;
use crate::plan::{
    first_version, from_plan_refusal, migrated, migration_refusal, next_version,
    plan_limit_refusal, plan_refusal, plan_update_refusal, plan_updated, planned,
    token_plan_refusal, with_plan,
};
use crate::statements::{compaction, keep_threshold, Statements};
use crate::subscription::{
    cancelled_event, creation_refusal, deposit_refusal, deposited, new_subscription,
    one_off_charge, refund_refusal, refunded, resume_refusal, status_refusal,
    usage_limits_refusal, with_status, with_subscription, withdrawal_refusal, withdrawn,
};
use crate::types::{
    Address, Bucket, Bytes32, Call, MerchantConfig, MetadataEntry, OracleConfig, OraclePrice,
    RecoveryReason, SubscriptionStatus, UsageLimits,
};
use crate::vault::{Config, Usage, VaultState};
use vstd::prelude::*;

verus! {

/// When and where an operation happens.
pub struct Moment {
    pub now: u64,
    /// The vault's own address.
    pub contract: Address,
}

/// When and where an invocation happens.
pub open spec fn moment(call: Call) -> Moment {
    Moment { now: call.now, contract: call.contract }
}

/// An operation that may change the vault, with its arguments.
pub enum Operation {
    Init {
        token: Address,
        token_decimals: u32,
        admin: Address,
        min_topup: i128,
        grace_period: u64,
    },
    SetMinTopup { admin: Address, min_topup: i128 },
    RotateAdmin { current_admin: Address, new_admin: Address },
    RecoverStrandedFunds {
        admin: Address,
        recipient: Address,
        amount: i128,
        reason: RecoveryReason,
    },
    EnableEmergencyStop { admin: Address },
    DisableEmergencyStop { admin: Address },
    ExportContractSnapshot { admin: Address },
    ExportSubscriptionSummary { admin: Address, subscription_id: u32 },
    ExportSubscriptionSummaries { admin: Address, start_id: u32, limit: u32 },
    CreateSubscription {
        subscriber: Address,
        merchant: Address,
        token: Address,
        amount: i128,
        interval_seconds: u64,
        usage_enabled: bool,
        lifetime_cap: Option<i128>,
    },
    DepositFunds { subscription_id: u32, subscriber: Address, amount: i128 },
    CreatePlanTemplate {
        merchant: Address,
        amount: i128,
        interval_seconds: u64,
        usage_enabled: bool,
        lifetime_cap: Option<i128>,
    },
    CreatePlanTemplateWithToken {
        merchant: Address,
        token: Address,
        amount: i128,
        interval_seconds: u64,
        usage_enabled: bool,
        lifetime_cap: Option<i128>,
    },
    CreateSubscriptionFromPlan { subscriber: Address, plan_template_id: u32 },
    UpdatePlanTemplate {
        merchant: Address,
        plan_template_id: u32,
        amount: i128,
        interval_seconds: u64,
        usage_enabled: bool,
        lifetime_cap: Option<i128>,
    },
    SetPlanMaxActiveSubs { merchant: Address, plan_template_id: u32, max_active: u32 },
    MigrateSubscriptionToPlan {
        subscriber: Address,
        subscription_id: u32,
        new_plan_template_id: u32,
    },
    SetSubscriberCreditLimit {
        admin: Address,
        subscriber: Address,
        token: Address,
        credit_limit: i128,
    },
    CancelSubscription { subscription_id: u32, authorizer: Address },
    PauseSubscription { subscription_id: u32, authorizer: Address },
    ResumeSubscription { subscription_id: u32, authorizer: Address },
    WithdrawSubscriberFunds { subscription_id: u32, subscriber: Address },
    PartialRefund {
        admin: Address,
        subscription_id: u32,
        subscriber: Address,
        amount: i128,
    },
    ChargeOneOff { subscription_id: u32, merchant: Address, amount: i128 },
    ChargeInterval {
        subscription_id: u32,
        idempotency_key: Option<Bytes32>,
        quote: OraclePrice,
    },
    ChargeUsage { subscription_id: u32, usage_amount: i128, reference: Seq<u8> },
    ConfigureUsageLimits { merchant: Address, subscription_id: u32, limits: UsageLimits },
    WithdrawMerchantFunds { merchant: Address, token: Address, amount: i128, custody: i128 },
    MerchantRefund { merchant: Address, subscriber: Address, token: Address, amount: i128 },
    PauseMerchant { merchant: Address },
    UnpauseMerchant { merchant: Address },
    SetMerchantConfig { merchant: Address, config: MerchantConfig<Seq<u8>> },
    AddAcceptedToken { admin: Address, token: Address, decimals: u32 },
    RemoveAcceptedToken { admin: Address, token: Address },
    SetBillingRetention { admin: Address, keep_recent: u32 },
    CompactBillingStatements {
        admin: Address,
        subscription_id: u32,
        keep_recent_override: Option<u32>,
    },
    SetOracleConfig {
        admin: Address,
        enabled: bool,
        oracle: Option<Address>,
        max_age_seconds: u64,
    },
    SetMetadata { subscription_id: u32, authorizer: Address, key: Seq<u8>, value: Seq<u8> },
    DeleteMetadata { subscription_id: u32, authorizer: Address, key: Seq<u8> },
    AddToBlocklist { authorizer: Address, subscriber: Address, note: Option<Seq<u8>> },
    RemoveFromBlocklist { admin: Address, subscriber: Address },
}

/// What an operation needs of the vault: ids and versions must last, and an interval charge
/// needs an interval.
pub open spec fn is_possible(s: VaultState, op: Operation) -> bool {
    match op {
        Operation::CreatePlanTemplate { .. } => s.next_plan_id < u32::MAX,
        Operation::CreatePlanTemplateWithToken { .. } => s.next_plan_id < u32::MAX,
        Operation::UpdatePlanTemplate { plan_template_id, .. } => s.next_plan_id < u32::MAX
            && s.plans[plan_template_id].version < u32::MAX,
        Operation::ChargeInterval { subscription_id, .. } => has_period(s, subscription_id),
        _ => true,
    }
}

/// Whether an operation is refused, or has nothing to do.
#[verifier::opaque]
pub open spec fn is_refused(s: VaultState, m: Moment, op: Operation) -> bool {
    match op {
        Operation::Init { .. } => s.config.token is Some || s.config.admin is Some,
        Operation::SetMinTopup { admin, .. } => admin_refusal(s, admin) is Some,
        Operation::RotateAdmin { current_admin, .. } => {
            admin_refusal(s, current_admin) is Some
        },
        Operation::RecoverStrandedFunds { admin, amount, .. } => {
            recovery_refusal(s, admin, amount) is Some
        },
        Operation::EnableEmergencyStop { admin } => {
            admin_refusal(s, admin) is Some || s.config.emergency_stop
        },
        Operation::DisableEmergencyStop { admin } => {
            admin_refusal(s, admin) is Some || !s.config.emergency_stop
        },
        Operation::ExportContractSnapshot { admin } => snapshot_refusal(s, admin) is Some,
        Operation::ExportSubscriptionSummary { admin, subscription_id } => {
            export_refusal(s, admin, subscription_id) is Some
        },
        Operation::ExportSubscriptionSummaries { admin, start_id, limit } => {
            exports_refusal(s, admin, limit) is Some || limit == 0 || start_id >= s.next_id
        },
        Operation::CreateSubscription { subscriber, token, amount, lifetime_cap, .. } => {
            s.config.emergency_stop || creation_refusal(
                s,
                subscriber,
                token,
                amount,
                lifetime_cap,
            ) is Some
        },
        Operation::DepositFunds { subscription_id, amount, .. } => {
            s.config.emergency_stop || deposit_refusal(s, subscription_id, amount) is Some
        },
        Operation::CreatePlanTemplate { lifetime_cap, .. } => {
            plan_refusal(s, lifetime_cap) is Some
        },
        Operation::CreatePlanTemplateWithToken { token, lifetime_cap, .. } => {
            token_plan_refusal(s, token, lifetime_cap) is Some
        },
        Operation::CreateSubscriptionFromPlan { subscriber, plan_template_id } => {
            from_plan_refusal(s, subscriber, plan_template_id) is Some
        },
        Operation::UpdatePlanTemplate { merchant, plan_template_id, lifetime_cap, .. } => {
            plan_update_refusal(s, merchant, plan_template_id, lifetime_cap) is Some
        },
        Operation::SetPlanMaxActiveSubs { merchant, plan_template_id, .. } => {
            plan_limit_refusal(s, merchant, plan_template_id) is Some
        },
        Operation::MigrateSubscriptionToPlan {
            subscriber,
            subscription_id,
            new_plan_template_id,
        } => migration_refusal(s, subscriber, subscription_id, new_plan_template_id) is Some,
        Operation::SetSubscriberCreditLimit { admin, .. } => admin_refusal(s, admin) is Some,
        Operation::CancelSubscription { subscription_id, authorizer } => {
            status_refusal(
                s,
                subscription_id,
                authorizer,
                SubscriptionStatus::Cancelled,
            ) is Some
        },
        Operation::PauseSubscription { subscription_id, authorizer } => {
            status_refusal(s, subscription_id, authorizer, SubscriptionStatus::Paused) is Some
        },
        Operation::ResumeSubscription { subscription_id, authorizer } => {
            resume_refusal(s, subscription_id, authorizer, m.now) is Some
        },
        Operation::WithdrawSubscriberFunds { subscription_id, subscriber } => {
            withdrawal_refusal(s, subscription_id, subscriber) is Some
        },
        Operation::PartialRefund { admin, subscription_id, subscriber, amount } => {
            refund_refusal(s, admin, subscription_id, subscriber, amount) is Some
        },
        Operation::ChargeInterval { .. } => s.config.emergency_stop,
        Operation::ChargeUsage { .. } => s.config.emergency_stop,
        Operation::ConfigureUsageLimits { merchant, subscription_id, .. } => {
            usage_limits_refusal(s, merchant, subscription_id) is Some
        },
        Operation::WithdrawMerchantFunds { merchant, token, amount, custody } => {
            payout_refusal(s, merchant, token, amount, custody) is Some
        },
        Operation::MerchantRefund { merchant, token, amount, .. } => {
            merchant_refund_refusal(s, merchant, token, amount) is Some
        },
        Operation::SetMerchantConfig { config, .. } => {
            config.redirect_url.len() > MAX_REDIRECT_URL_LENGTH
        },
        Operation::AddAcceptedToken { admin, .. } => admin_refusal(s, admin) is Some,
        Operation::RemoveAcceptedToken { admin, token } => {
            token_removal_refusal(s, admin, token) is Some
        },
        Operation::SetBillingRetention { admin, .. } => admin_refusal(s, admin) is Some,
        Operation::CompactBillingStatements { admin, subscription_id, keep_recent_override } => {
            admin_refusal(s, admin) is Some || compaction(
                s.statements,
                subscription_id,
                keep_threshold(s.statements, keep_recent_override),
            ).1 is Err
        },
        Operation::SetOracleConfig { admin, enabled, oracle, max_age_seconds } => {
            admin_refusal(s, admin) is Some || oracle_config_refusal(
                enabled,
                oracle,
                max_age_seconds,
            ) is Some
        },
        Operation::SetMetadata { subscription_id, authorizer, key, value } => {
            set_refusal(s, subscription_id, authorizer, key, value) is Some
        },
        Operation::DeleteMetadata { subscription_id, authorizer, key } => {
            delete_refusal(s, subscription_id, authorizer, key) is Some
        },
        Operation::AddToBlocklist { authorizer, subscriber, .. } => {
            !may_block(s, authorizer, subscriber)
        },
        Operation::RemoveFromBlocklist { admin, subscriber } => {
            unblock_refusal(s, admin, subscriber) is Some
        },
        _ => false,
    }
}

/// The state that an operation leaves which is not refused.
pub open spec fn applied(s: VaultState, m: Moment, op: Operation) -> VaultState {
    match op {
        Operation::Init { token, token_decimals, admin, min_topup, grace_period } => {
            initialized_with(s, token, token_decimals, admin, min_topup, grace_period)
        },
        Operation::SetMinTopup { min_topup, .. } => {
            VaultState {
                config: Config { min_topup: Some(min_topup), ..s.config },
                ..s
            }
        },
        Operation::RotateAdmin { current_admin, new_admin } => {
            rotated(s, current_admin, new_admin, m.now)
        },
        Operation::RecoverStrandedFunds { admin, recipient, amount, reason } => {
            recovered(s, admin, recipient, amount, reason, m.now)
        },
        Operation::EnableEmergencyStop { admin } => {
            with_stop(
                s,
                true,
                Event::EmergencyStopEnabled(
                    EmergencyStopEnabledEvent { admin, timestamp: m.now },
                ),
            )
        },
        Operation::DisableEmergencyStop { admin } => {
            with_stop(
                s,
                false,
                Event::EmergencyStopDisabled(
                    EmergencyStopDisabledEvent { admin, timestamp: m.now },
                ),
            )
        },
        Operation::ExportContractSnapshot { admin } => {
            VaultState {
                outbox: s.outbox.push(
                    Effect::Publish(
                        Event::ContractSnapshot(
                            ContractSnapshotEvent { admin, timestamp: m.now },
                        ),
                    ),
                ),
                ..s
            }
        },
        Operation::ExportSubscriptionSummary { admin, subscription_id } => {
            VaultState {
                outbox: s.outbox.push(export_event(admin, subscription_id, 1, 1, m.now)),
                ..s
            }
        },
        Operation::ExportSubscriptionSummaries { admin, start_id, limit } => {
            VaultState {
                outbox: s.outbox.push(
                    export_event(
                        admin,
                        start_id,
                        limit,
                        exported_ids(s, start_id, limit).len(),
                        m.now,
                    ),
                ),
                ..s
            }
        },
        Operation::CreateSubscription {
            subscriber,
            merchant,
            token,
            amount,
            interval_seconds,
            usage_enabled,
            lifetime_cap,
        } => {
            with_subscription(
                s,
                new_subscription(
                    subscriber,
                    merchant,
                    token,
                    amount,
                    interval_seconds,
                    usage_enabled,
                    lifetime_cap,
                    m.now,
                ),
            )
        },
        Operation::DepositFunds { subscription_id, subscriber, amount } => {
            deposited(s, subscription_id, subscriber, amount, m.contract)
        },
        Operation::CreatePlanTemplate {
            merchant,
            amount,
            interval_seconds,
            usage_enabled,
            lifetime_cap,
        } => {
            with_plan(
                s,
                first_version(
                    s,
                    merchant,
                    s.config.token->Some_0,
                    amount,
                    interval_seconds,
                    usage_enabled,
                    lifetime_cap,
                ),
            )
        },
        Operation::CreatePlanTemplateWithToken {
            merchant,
            token,
            amount,
            interval_seconds,
            usage_enabled,
            lifetime_cap,
        } => {
            with_plan(
                s,
                first_version(
                    s,
                    merchant,
                    token,
                    amount,
                    interval_seconds,
                    usage_enabled,
                    lifetime_cap,
                ),
            )
        },
        Operation::CreateSubscriptionFromPlan { subscriber, plan_template_id } => {
            VaultState {
                plan_of: s.plan_of.insert(s.next_id, plan_template_id),
                ..with_subscription(
                    s,
                    planned(subscriber, s.plans[plan_template_id], m.now),
                )
            }
        },
        Operation::UpdatePlanTemplate {
            plan_template_id,
            amount,
            interval_seconds,
            usage_enabled,
            lifetime_cap,
            ..
        } => {
            plan_updated(
                s,
                plan_template_id,
                next_version(
                    s.plans[plan_template_id],
                    amount,
                    interval_seconds,
                    usage_enabled,
                    lifetime_cap,
                ),
                m.now,
            )
        },
        Operation::SetPlanMaxActiveSubs { plan_template_id, max_active, .. } => {
            VaultState {
                plan_limits: s.plan_limits.insert(plan_template_id, max_active),
                ..s
            }
        },
        Operation::MigrateSubscriptionToPlan { subscription_id, new_plan_template_id, .. } => {
            migrated(s, subscription_id, new_plan_template_id, m.now)
        },
        Operation::SetSubscriberCreditLimit { subscriber, token, credit_limit, .. } => {
            VaultState {
                credit_limits: s.credit_limits.insert(
                    Bucket { holder: subscriber, token },
                    credit_limit,
                ),
                ..s
            }
        },
        Operation::CancelSubscription { subscription_id, authorizer } => {
            with_status(
                s,
                subscription_id,
                SubscriptionStatus::Cancelled,
                cancelled_event(s, subscription_id, authorizer),
            )
        },
        Operation::PauseSubscription { subscription_id, authorizer } => {
            with_status(
                s,
                subscription_id,
                SubscriptionStatus::Paused,
                Event::SubscriptionPaused(
                    SubscriptionPausedEvent { subscription_id, authorizer },
                ),
            )
        },
        Operation::ResumeSubscription { subscription_id, authorizer } => {
            with_status(
                s,
                subscription_id,
                SubscriptionStatus::Active,
                Event::SubscriptionResumed(
                    SubscriptionResumedEvent { subscription_id, authorizer },
                ),
            )
        },
        Operation::WithdrawSubscriberFunds { subscription_id, subscriber } => {
            withdrawn(s, subscription_id, subscriber, m.contract)
        },
        Operation::PartialRefund { subscription_id, amount, .. } => {
            refunded(s, subscription_id, amount, m.contract, m.now)
        },
        Operation::ChargeOneOff { subscription_id, merchant, amount } => {
            one_off_charge(s, subscription_id, merchant, amount, m.now).0
        },
        Operation::ChargeInterval { subscription_id, idempotency_key, quote } => {
            interval_charge(s, subscription_id, m.now, idempotency_key, quote).0
        },
        Operation::ChargeUsage { subscription_id, usage_amount, reference } => {
            usage_charge(s, subscription_id, usage_amount, reference, m.now).0
        },
        Operation::ConfigureUsageLimits { subscription_id, limits, .. } => {
            VaultState {
                usage: Usage {
                    limits: s.usage.limits.insert(subscription_id, limits),
                    ..s.usage
                },
                ..s
            }
        },
        Operation::WithdrawMerchantFunds { merchant, token, amount, .. } => {
            paid_out(s, merchant, token, amount, m.contract)
        },
        Operation::MerchantRefund { merchant, subscriber, token, amount } => {
            merchant_refunded(s, merchant, subscriber, token, amount, m.contract)
        },
        Operation::PauseMerchant { merchant } => with_pause(s, merchant, true, m.now),
        Operation::UnpauseMerchant { merchant } => with_pause(s, merchant, false, m.now),
        Operation::SetMerchantConfig { merchant, config } => {
            VaultState {
                merchants: Merchants {
                    configs: s.merchants.configs.insert(merchant, config),
                    ..s.merchants
                },
                ..s
            }
        },
        Operation::AddAcceptedToken { token, decimals, .. } => {
            VaultState { tokens: accepting(s.tokens, token, decimals), ..s }
        },
        Operation::RemoveAcceptedToken { token, .. } => {
            VaultState {
                tokens: s.tokens.remove(position_of(s.tokens, token)->Some_0),
                ..s
            }
        },
        Operation::SetBillingRetention { keep_recent, .. } => {
            VaultState {
                statements: Statements { keep_recent: Some(keep_recent), ..s.statements },
                ..s
            }
        },
        Operation::CompactBillingStatements { admin, subscription_id, keep_recent_override } => {
            let (statements, outcome) = compaction(
                s.statements,
                subscription_id,
                keep_threshold(s.statements, keep_recent_override),
            );
            with_compaction(s, statements, outcome->Ok_0, admin, m.now)
        },
        Operation::SetOracleConfig { enabled, oracle, max_age_seconds, .. } => {
            VaultState {
                config: Config {
                    oracle: OracleConfig { enabled, oracle, max_age_seconds },
                    ..s.config
                },
                ..s
            }
        },
        Operation::SetMetadata { subscription_id, authorizer, key, value } => {
            VaultState {
                metadata: with_entry(
                    s.metadata,
                    MetadataEntry { subscription_id, key, value },
                ),
                outbox: s.outbox.push(
                    Effect::Publish(
                        Event::MetadataSet(
                            MetadataSetEvent { subscription_id, key, authorizer },
                        ),
                    ),
                ),
                ..s
            }
        },
        Operation::DeleteMetadata { subscription_id, authorizer, key } => {
            VaultState {
                metadata: without_entry(s.metadata, subscription_id, key),
                outbox: s.outbox.push(
                    Effect::Publish(
                        Event::MetadataDeleted(
                            MetadataDeletedEvent { subscription_id, key, authorizer },
                        ),
                    ),
                ),
                ..s
            }
        },
        Operation::AddToBlocklist { authorizer, subscriber, note } => {
            blocked(s, authorizer, subscriber, note, m.now)
        },
        Operation::RemoveFromBlocklist { admin, subscriber } => {
            VaultState {
                blocklist: s.blocklist.remove(subscriber),
                outbox: s.outbox.push(
                    Effect::Publish(
                        Event::BlocklistRemoved(
                            BlocklistRemovedEvent {
                                subscriber,
                                removed_by: admin,
                                timestamp: m.now,
                            },
                        ),
                    ),
                ),
                ..s
            }
        },
    }
}

/// The state that an operation leaves. An operation that is refused leaves the state that
/// it found.
pub open spec fn after(s: VaultState, m: Moment, op: Operation) -> VaultState {
    if is_refused(s, m, op) {
        s
    } else {
        applied(s, m, op)
    }
}

} // verus!
