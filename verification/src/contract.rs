//! The vault's entrypoints.
//!
//! Each entrypoint takes what the ledger knows of the running invocation as a [`Call`]. An
//! operation that fails leaves the vault as it was.
use crate::admin::{
    accepting, add_accepted_token, admin_refusal, charged_in_turn, do_batch_charge,
    do_get_admin, do_init, do_recover_stranded_funds, do_rotate_admin, do_set_min_topup,
    get_min_topup, initialized, initialized_with, list_accepted_tokens, position_of,
    recovered, recovery_refusal, remove_accepted_token, require_admin_auth, rotated,
    token_removal_refusal,
};
use crate::blocklist::{
    blocked, do_add_to_blocklist, do_remove_from_blocklist, get_blocklist_entry,
    is_blocklisted, may_block, unblock_refusal,
};
use crate::charge_core::{
    charge_one, charge_usage_one, has_period, interval_charge, usage_charge,
};
use crate::events::{
    BillingCompactedEvent, BlocklistRemovedEvent, ContractSnapshotEvent, Effect,
    EmergencyStopDisabledEvent, EmergencyStopEnabledEvent, Event, MetadataDeletedEvent,
    MetadataSetEvent, SubscriptionPausedEvent, SubscriptionResumedEvent,
};
use crate::merchant::{
    balance_of, earnings_of, get_merchant_balance, get_merchant_balance_by_token,
    get_merchant_config, get_merchant_paused, get_merchant_token_earnings,
    get_merchant_total_earnings, get_reconciliation_snapshot, has_earned, is_paused,
    merchant_refund, merchant_refund_refusal, merchant_refunded, paid_out, pause_merchant,
    payout_refusal, reconciled, set_merchant_config, unpause_merchant, with_pause,
    withdraw_merchant_funds, withdraw_merchant_funds_for_token, Merchants,
    MAX_REDIRECT_URL_LENGTH,
};
use crate::metadata::{
    delete_refusal, do_delete_metadata, do_get_metadata, do_list_metadata_keys,
    do_set_metadata, keys_of, set_refusal, value_of, with_entry, without_entry,
};
use crate::migration::{
    export_contract_snapshot, export_event, export_refusal, export_subscription_summaries,
    export_subscription_summary, exported_ids, exports_refusal, snapshot_refusal,
    summarized, summary_of, STORAGE_VERSION,
};
use crate::operation::{after, is_refused, moment, Moment, Operation};
use crate::oracle::{get_oracle_config, oracle_config_refusal, set_oracle_config};
use crate::plan::{
    do_create_plan_template, do_create_plan_template_with_token,
    do_create_subscription_from_plan, do_migrate_subscription_to_plan,
    do_set_plan_max_active_subs, do_update_plan_template, first_version, from_plan_refusal,
    get_plan_max_active_subs, get_plan_template, migrated, migration_refusal, next_version,
    plan_found, plan_limit, plan_limit_refusal, plan_refusal, plan_update_refusal,
    plan_updated, planned, token_plan_refusal, with_plan,
};
use crate::queries::{
    cap_info, compute_next_charge_info, estimate_topup_for_intervals, existing, found,
    get_cap_info, get_merchant_subscription_count, get_subscription,
    get_subscriptions_by_merchant, get_token_subscription_count, is_valid_page,
    list_subscriptions_by_subscriber, lists, next_charge, owned, read_page, topup_for,
    SubscriptionsPage,
};
use crate::statements::{
    compact_subscription_statements, compacted, compaction, counted, cursor_after,
    get_compacted_aggregate, get_retention_config, get_statements_by_subscription_cursor,
    get_statements_by_subscription_offset, keep_threshold, page_by_cursor, page_by_offset,
    retention, set_retention_config, shows, Statements,
};
use crate::subscription::{
    cancelled_event, creation_refusal, credit_limit, deposit_refusal, deposited,
    do_cancel_subscription, do_charge_one_off, do_configure_usage_limits,
    do_create_subscription, do_create_subscription_with_token, do_deposit_funds,
    do_partial_refund, do_pause_subscription, do_resume_subscription,
    do_set_subscriber_credit_limit, do_withdraw_subscriber_funds, exposure,
    get_subscriber_credit_limit, get_subscriber_exposure, new_subscription, one_off_charge,
    refund_refusal, refunded, resume_refusal, status_refusal, usage_limits_refusal,
    with_status, with_subscription, withdrawal_refusal, withdrawn,
};
use crate::tables::{listed, viewed_items, window};
use crate::types::{
    text_view, AcceptedToken, Address, BatchChargeResult, BillingCompactionSummary,
    BillingRetentionConfig, BillingStatementAggregate, BillingStatementsPage, BlocklistEntry,
    Bucket, Call, CapInfo, ChargeExecutionResult, ContractSnapshot, Error, MerchantConfig,
    MetadataEntry, NextChargeInfo, OracleConfig, OraclePrice, PlanTemplate,
    ReconciliationSnapshot, RecoveryReason, Subscription, SubscriptionStatus,
    SubscriptionSummary, TokenEarnings, UsageLimits,
};
use crate::vault::{Config, SubscriptionVault, Usage, VaultState};
use vstd::prelude::*;

verus! {

/// Nothing happened and `e` was returned.
pub open spec fn refuses<T>(
    result: Result<T, Error>,
    e: Error,
    before: VaultState,
    after: VaultState,
) -> bool {
    result is Err && result->Err_0 == e && after == before
}

/// The vault went into `state` and `value` was returned.
pub open spec fn yields<T>(
    result: Result<T, Error>,
    value: T,
    state: VaultState,
    after: VaultState,
) -> bool {
    result == Ok::<T, Error>(value) && after == state
}

/// How an interval charge ended, as its caller learns it. Outcomes that change the
/// subscription's status are no failures, so that the change persists.
pub open spec fn execution(outcome: Result<(), Error>) -> Result<ChargeExecutionResult, Error> {
    match outcome {
        Ok(_) => Ok(ChargeExecutionResult::Charged),
        Err(Error::InsufficientBalance) => Ok(ChargeExecutionResult::InsufficientBalance),
        Err(Error::LifetimeCapReached) => Ok(ChargeExecutionResult::LifetimeCapReached),
        Err(e) => Err(e),
    }
}

/// How a usage charge ended, as its caller learns it. A cap that ended the subscription is
/// no failure, so that the cancellation persists.
pub open spec fn usage_execution(outcome: Result<(), Error>) -> Result<(), Error> {
    match outcome {
        Err(Error::LifetimeCapReached) => Ok(()),
        other => other,
    }
}

/// The reference of usage charges that come without one: the text "usage".
pub open spec fn plain_usage_reference() -> Seq<u8> {
    seq![0x75u8, 0x73u8, 0x61u8, 0x67u8, 0x65u8]
}

/// The state with the emergency stop switched and `event` published.
pub open spec fn with_stop(s: VaultState, stop: bool, event: Event<Seq<u8>>) -> VaultState {
    VaultState {
        config: Config { emergency_stop: stop, ..s.config },
        outbox: s.outbox.push(Effect::Publish(event)),
        ..s
    }
}

/// Refuses while the emergency stop is active.
fn require_not_emergency_stop(vault: &SubscriptionVault) -> (result: Result<(), Error>)
    ensures
        result == if vault@.config.emergency_stop {
            Err::<(), Error>(Error::EmergencyStopActive)
        } else {
            Ok(())
        },
{
    if vault.config.emergency_stop {
        Err(Error::EmergencyStopActive)
    } else {
        Ok(())
    }
}

impl SubscriptionVault {
    // ── Admin / Config ───────────────────────────────────────────────────────

    /// Initialize the vault: set token address, admin, minimum top-up, and grace period.
    pub fn init(
        &mut self,
        token: Address,
        token_decimals: u32,
        admin: Address,
        min_topup: i128,
        grace_period: u64,
    ) -> (result: Result<(), Error>)
        ensures
            if old(self)@.config.token is Some || old(self)@.config.admin is Some {
                refuses(result, Error::AlreadyInitialized, old(self)@, final(self)@)
            } else {
                yields(
                    result,
                    (),
                    initialized_with(
                        old(self)@,
                        token,
                        token_decimals,
                        admin,
                        min_topup,
                        grace_period,
                    ),
                    final(self)@,
                )
            },
            forall|m: Moment|
                final(self)@ == #[trigger] after(
                    old(self)@,
                    m,
                    Operation::Init { token, token_decimals, admin, min_topup, grace_period },
                ),
    {
        proof {
            reveal(is_refused);
        }
        do_init(self, token, token_decimals, admin, min_topup, grace_period)
    }

    /// Update the minimum top-up threshold. Only the admin may.
    pub fn set_min_topup(
        &mut self,
        call: &Call,
        admin: Address,
        min_topup: i128,
    ) -> (result: Result<(), Error>)
        requires
            call.signed_by(admin),
        ensures
            match admin_refusal(old(self)@, admin) {
                Some(e) => refuses(result, e, old(self)@, final(self)@),
                None => yields(
                    result,
                    (),
                    VaultState {
                        config: Config { min_topup: Some(min_topup), ..old(self)@.config },
                        ..old(self)@
                    },
                    final(self)@,
                ),
            },
            final(self)@ == after(
                old(self)@,
                moment(*call),
                Operation::SetMinTopup { admin, min_topup },
            ),
    {
        proof {
            reveal(is_refused);
        }
        do_set_min_topup(self, call, admin, min_topup)
    }

    /// Get the current minimum top-up threshold.
    pub fn get_min_topup(&self) -> (min_topup: Result<i128, Error>)
        ensures
            min_topup == initialized(self@.config.min_topup),
    {
        get_min_topup(self)
    }

    /// Get the current admin address.
    pub fn get_admin(&self) -> (admin: Result<Address, Error>)
        ensures
            admin == initialized(self@.config.admin),
    {
        do_get_admin(self)
    }

    /// Rotate admin to a new address. Only the current admin may.
    pub fn rotate_admin(
        &mut self,
        call: &Call,
        current_admin: Address,
        new_admin: Address,
    ) -> (result: Result<(), Error>)
        requires
            call.signed_by(current_admin),
        ensures
            match admin_refusal(old(self)@, current_admin) {
                Some(e) => refuses(result, e, old(self)@, final(self)@),
                None => yields(
                    result,
                    (),
                    rotated(old(self)@, current_admin, new_admin, call.now),
                    final(self)@,
                ),
            },
            final(self)@ == after(
                old(self)@,
                moment(*call),
                Operation::RotateAdmin { current_admin, new_admin },
            ),
    {
        proof {
            reveal(is_refused);
        }
        do_rotate_admin(self, call, current_admin, new_admin)
    }

    /// Record the recovery of stranded funds. Admin only.
    pub fn recover_stranded_funds(
        &mut self,
        call: &Call,
        admin: Address,
        recipient: Address,
        amount: i128,
        reason: RecoveryReason,
    ) -> (result: Result<(), Error>)
        requires
            call.signed_by(admin),
        ensures
            match recovery_refusal(old(self)@, admin, amount) {
                Some(e) => refuses(result, e, old(self)@, final(self)@),
                None => yields(
                    result,
                    (),
                    recovered(old(self)@, admin, recipient, amount, reason, call.now),
                    final(self)@,
                ),
            },
            final(self)@ == after(
                old(self)@,
                moment(*call),
                Operation::RecoverStrandedFunds { admin, recipient, amount, reason },
            ),
    {
        proof {
            reveal(is_refused);
        }
        do_recover_stranded_funds(self, call, admin, recipient, amount, reason)
    }

    /// Charge a batch of subscriptions in one transaction. Admin only.
    ///
    /// **Disabled when emergency stop is active.**
    ///
    /// Returns a per-subscription result vector so callers can identify which charges
    /// succeeded and which failed (with error codes). `quote` is what the price oracle
    /// reports; it is not read while oracle pricing is off.
    pub fn batch_charge(
        &mut self,
        call: &Call,
        subscription_ids: &Vec<u32>,
        quote: &OraclePrice,
    ) -> (result: Result<Vec<BatchChargeResult>, Error>)
        requires
            old(self)@.config.emergency_stop || {
                &&& old(self)@.config.admin matches Some(admin) ==> call.signed_by(admin)
                &&& forall|i: int|
                    0 <= i < subscription_ids@.len() ==> has_period(
                        old(self)@,
                        #[trigger] subscription_ids@[i],
                    )
            },
        ensures
            if old(self)@.config.emergency_stop {
                refuses(result, Error::EmergencyStopActive, old(self)@, final(self)@)
            } else if old(self)@.config.admin is None {
                refuses(result, Error::NotInitialized, old(self)@, final(self)@)
            } else {
                result is Ok && (final(self)@, result->Ok_0@) == charged_in_turn(
                    old(self)@,
                    subscription_ids@,
                    call.now,
                    *quote,
                )
            },
    {
        match require_not_emergency_stop(self) {
            Err(e) => return Err(e),
            Ok(()) => {},
        }
        do_batch_charge(self, call, subscription_ids, quote)
    }

    // ── Emergency Stop ───────────────────────────────────────────────────────

    /// Get the current emergency stop status.
    pub fn get_emergency_stop_status(&self) -> (stopped: bool)
        ensures
            stopped == self@.config.emergency_stop,
    {
        self.config.emergency_stop
    }

    /// Enable the emergency stop (circuit breaker). Admin only. Does nothing while it is
    /// active.
    pub fn enable_emergency_stop(&mut self, call: &Call, admin: Address) -> (result: Result<
        (),
        Error,
    >)
        requires
            call.signed_by(admin),
        ensures
            match admin_refusal(old(self)@, admin) {
                Some(e) => refuses(result, e, old(self)@, final(self)@),
                None => yields(
                    result,
                    (),
                    if old(self)@.config.emergency_stop {
                        old(self)@
                    } else {
                        with_stop(
                            old(self)@,
                            true,
                            Event::EmergencyStopEnabled(
                                EmergencyStopEnabledEvent { admin, timestamp: call.now },
                            ),
                        )
                    },
                    final(self)@,
                ),
            },
            final(self)@ == after(
                old(self)@,
                moment(*call),
                Operation::EnableEmergencyStop { admin },
            ),
    {
        proof {
            reveal(is_refused);
        }
        match require_admin_auth(self, call, &admin) {
            Err(e) => return Err(e),
            Ok(()) => {},
        }
        if !self.config.emergency_stop {
            self.config.emergency_stop = true;
            self.outbox.publish(
                Event::EmergencyStopEnabled(
                    EmergencyStopEnabledEvent { admin, timestamp: call.now },
                ),
            );
        }
        Ok(())
    }

    /// Disable the emergency stop (circuit breaker). Admin only. Does nothing while it is
    /// not active.
    ///
    /// When disabled, normal operations resume. This should only be used after the incident
    /// has been resolved.
    pub fn disable_emergency_stop(&mut self, call: &Call, admin: Address) -> (result: Result<
        (),
        Error,
    >)
        requires
            call.signed_by(admin),
        ensures
            match admin_refusal(old(self)@, admin) {
                Some(e) => refuses(result, e, old(self)@, final(self)@),
                None => yields(
                    result,
                    (),
                    if !old(self)@.config.emergency_stop {
                        old(self)@
                    } else {
                        with_stop(
                            old(self)@,
                            false,
                            Event::EmergencyStopDisabled(
                                EmergencyStopDisabledEvent { admin, timestamp: call.now },
                            ),
                        )
                    },
                    final(self)@,
                ),
            },
            final(self)@ == after(
                old(self)@,
                moment(*call),
                Operation::DisableEmergencyStop { admin },
            ),
    {
        proof {
            reveal(is_refused);
        }
        match require_admin_auth(self, call, &admin) {
            Err(e) => return Err(e),
            Ok(()) => {},
        }
        if self.config.emergency_stop {
            self.config.emergency_stop = false;
            self.outbox.publish(
                Event::EmergencyStopDisabled(
                    EmergencyStopDisabledEvent { admin, timestamp: call.now },
                ),
            );
        }
        Ok(())
    }

    // ── Migration / Export ───────────────────────────────────────────────────

    /// Export contract-level configuration for migration tooling. Admin only.
    pub fn export_contract_snapshot(&mut self, call: &Call, admin: Address) -> (result: Result<
        ContractSnapshot,
        Error,
    >)
        requires
            call.signed_by(admin),
        ensures
            match snapshot_refusal(old(self)@, admin) {
                Some(e) => refuses(result, e, old(self)@, final(self)@),
                None => yields(
                    result,
                    ContractSnapshot {
                        admin,
                        token: old(self)@.config.token->Some_0,
                        min_topup: old(self)@.config.min_topup->Some_0,
                        next_id: old(self)@.next_id,
                        storage_version: STORAGE_VERSION,
                        timestamp: call.now,
                    },
                    VaultState {
                        outbox: old(self)@.outbox.push(
                            Effect::Publish(
                                Event::ContractSnapshot(
                                    ContractSnapshotEvent { admin, timestamp: call.now },
                                ),
                            ),
                        ),
                        ..old(self)@
                    },
                    final(self)@,
                ),
            },
            final(self)@ == after(
                old(self)@,
                moment(*call),
                Operation::ExportContractSnapshot { admin },
            ),
    {
        proof {
            reveal(is_refused);
        }
        export_contract_snapshot(self, call, admin)
    }

    /// Export a single subscription summary for migration tooling. Admin only.
    pub fn export_subscription_summary(
        &mut self,
        call: &Call,
        admin: Address,
        subscription_id: u32,
    ) -> (result: Result<SubscriptionSummary, Error>)
        requires
            call.signed_by(admin),
        ensures
            match export_refusal(old(self)@, admin, subscription_id) {
                Some(e) => refuses(result, e, old(self)@, final(self)@),
                None => yields(
                    result,
                    summary_of(subscription_id, old(self)@.subscriptions[subscription_id]),
                    VaultState {
                        outbox: old(self)@.outbox.push(
                            export_event(admin, subscription_id, 1, 1, call.now),
                        ),
                        ..old(self)@
                    },
                    final(self)@,
                ),
            },
            final(self)@ == after(
                old(self)@,
                moment(*call),
                Operation::ExportSubscriptionSummary { admin, subscription_id },
            ),
    {
        proof {
            reveal(is_refused);
        }
        export_subscription_summary(self, call, admin, subscription_id)
    }

    /// Export a paginated list of subscription summaries. Admin only.
    pub fn export_subscription_summaries(
        &mut self,
        call: &Call,
        admin: Address,
        start_id: u32,
        limit: u32,
    ) -> (result: Result<Vec<SubscriptionSummary>, Error>)
        requires
            call.signed_by(admin),
        ensures
            match exports_refusal(old(self)@, admin, limit) {
                Some(e) => refuses(result, e, old(self)@, final(self)@),
                None => {
                    let ids = exported_ids(old(self)@, start_id, limit);
                    &&& result is Ok
                    &&& result->Ok_0@ == summarized(old(self)@.subscriptions, ids)
                    &&& final(self)@ == if limit == 0 || start_id >= old(self)@.next_id {
                        old(self)@
                    } else {
                        VaultState {
                            outbox: old(self)@.outbox.push(
                                export_event(admin, start_id, limit, ids.len(), call.now),
                            ),
                            ..old(self)@
                        }
                    }
                },
            },
            final(self)@ == after(
                old(self)@,
                moment(*call),
                Operation::ExportSubscriptionSummaries { admin, start_id, limit },
            ),
    {
        proof {
            reveal(is_refused);
        }
        export_subscription_summaries(self, call, admin, start_id, limit)
    }

    // ── Subscription Lifecycle ───────────────────────────────────────────────

    /// Create a new subscription in the default token.
    ///
    /// **Disabled when emergency stop is active.**
    ///
    /// `lifetime_cap` is an optional maximum total amount (token base units) that may ever
    /// be charged for this subscription. `None` means no cap. When the cumulative charged
    /// amount reaches this value, the subscription is cancelled automatically.
    ///
    /// Returns `SubscriptionLimitReached` if the vault can issue no more unique ids.
    pub fn create_subscription(
        &mut self,
        call: &Call,
        subscriber: Address,
        merchant: Address,
        amount: i128,
        interval_seconds: u64,
        usage_enabled: bool,
        lifetime_cap: Option<i128>,
    ) -> (result: Result<u32, Error>)
        requires
            call.signed_by(subscriber),
        ensures
            if old(self)@.config.emergency_stop {
                refuses(result, Error::EmergencyStopActive, old(self)@, final(self)@)
            } else {
                match initialized(old(self)@.config.token) {
                    Err(e) => refuses(result, e, old(self)@, final(self)@),
                    Ok(token) => match creation_refusal(
                        old(self)@,
                        subscriber,
                        token,
                        amount,
                        lifetime_cap,
                    ) {
                        Some(e) => refuses(result, e, old(self)@, final(self)@),
                        None => yields(
                            result,
                            old(self)@.next_id,
                            with_subscription(
                                old(self)@,
                                new_subscription(
                                    subscriber,
                                    merchant,
                                    token,
                                    amount,
                                    interval_seconds,
                                    usage_enabled,
                                    lifetime_cap,
                                    call.now,
                                ),
                            ),
                            final(self)@,
                        ),
                    },
                }
            },
            old(self)@.config.token matches Some(token) ==> final(self)@ == after(
                old(self)@,
                moment(*call),
                Operation::CreateSubscription {
                    subscriber,
                    merchant,
                    token,
                    amount,
                    interval_seconds,
                    usage_enabled,
                    lifetime_cap,
                },
            ),
    {
        proof {
            reveal(is_refused);
        }
        match require_not_emergency_stop(self) {
            Err(e) => return Err(e),
            Ok(()) => {},
        }
        do_create_subscription(
            self,
            call,
            subscriber,
            merchant,
            amount,
            interval_seconds,
            usage_enabled,
            lifetime_cap,
        )
    }

    /// Create a subscription pinned to a specific accepted token.
    ///
    /// **Disabled when emergency stop is active.**
    pub fn create_subscription_with_token(
        &mut self,
        call: &Call,
        subscriber: Address,
        merchant: Address,
        token: Address,
        amount: i128,
        interval_seconds: u64,
        usage_enabled: bool,
        lifetime_cap: Option<i128>,
    ) -> (result: Result<u32, Error>)
        requires
            call.signed_by(subscriber),
        ensures
            if old(self)@.config.emergency_stop {
                refuses(result, Error::EmergencyStopActive, old(self)@, final(self)@)
            } else {
                match creation_refusal(old(self)@, subscriber, token, amount, lifetime_cap) {
                    Some(e) => refuses(result, e, old(self)@, final(self)@),
                    None => yields(
                        result,
                        old(self)@.next_id,
                        with_subscription(
                            old(self)@,
                            new_subscription(
                                subscriber,
                                merchant,
                                token,
                                amount,
                                interval_seconds,
                                usage_enabled,
                                lifetime_cap,
                                call.now,
                            ),
                        ),
                        final(self)@,
                    ),
                }
            },
            final(self)@ == after(
                old(self)@,
                moment(*call),
                Operation::CreateSubscription {
                    subscriber,
                    merchant,
                    token,
                    amount,
                    interval_seconds,
                    usage_enabled,
                    lifetime_cap,
                },
            ),
    {
        proof {
            reveal(is_refused);
        }
        match require_not_emergency_stop(self) {
            Err(e) => return Err(e),
            Ok(()) => {},
        }
        do_create_subscription_with_token(
            self,
            call,
            subscriber,
            merchant,
            token,
            amount,
            interval_seconds,
            usage_enabled,
            lifetime_cap,
        )
    }

    /// Subscriber deposits tokens into their prepaid vault.
    ///
    /// **Disabled when emergency stop is active.**
    pub fn deposit_funds(
        &mut self,
        call: &Call,
        subscription_id: u32,
        subscriber: Address,
        amount: i128,
    ) -> (result: Result<(), Error>)
        requires
            call.signed_by(subscriber),
        ensures
            if old(self)@.config.emergency_stop {
                refuses(result, Error::EmergencyStopActive, old(self)@, final(self)@)
            } else {
                match deposit_refusal(old(self)@, subscription_id, amount) {
                    Some(e) => refuses(result, e, old(self)@, final(self)@),
                    None => yields(
                        result,
                        (),
                        deposited(
                            old(self)@,
                            subscription_id,
                            subscriber,
                            amount,
                            call.contract,
                        ),
                        final(self)@,
                    ),
                }
            },
            final(self)@ == after(
                old(self)@,
                moment(*call),
                Operation::DepositFunds { subscription_id, subscriber, amount },
            ),
    {
        proof {
            reveal(is_refused);
        }
        match require_not_emergency_stop(self) {
            Err(e) => return Err(e),
            Ok(()) => {},
        }
        do_deposit_funds(self, call, subscription_id, subscriber, amount)
    }

    /// Creates a plan template that can be used to instantiate subscriptions.
    ///
    /// `lifetime_cap` is an optional default lifetime cap applied to subscriptions created
    /// from this template. `None` means template subscriptions have no cap.
    pub fn create_plan_template(
        &mut self,
        call: &Call,
        merchant: Address,
        amount: i128,
        interval_seconds: u64,
        usage_enabled: bool,
        lifetime_cap: Option<i128>,
    ) -> (result: Result<u32, Error>)
        requires
            call.signed_by(merchant),
            plan_refusal(old(self)@, lifetime_cap) is None ==> old(self)@.next_plan_id
                < u32::MAX,
        ensures
            match plan_refusal(old(self)@, lifetime_cap) {
                Some(e) => refuses(result, e, old(self)@, final(self)@),
                None => yields(
                    result,
                    old(self)@.next_plan_id,
                    with_plan(
                        old(self)@,
                        first_version(
                            old(self)@,
                            merchant,
                            old(self)@.config.token->Some_0,
                            amount,
                            interval_seconds,
                            usage_enabled,
                            lifetime_cap,
                        ),
                    ),
                    final(self)@,
                ),
            },
            final(self)@ == after(
                old(self)@,
                moment(*call),
                Operation::CreatePlanTemplate {
                    merchant,
                    amount,
                    interval_seconds,
                    usage_enabled,
                    lifetime_cap,
                },
            ),
    {
        proof {
            reveal(is_refused);
        }
        do_create_plan_template(
            self,
            call,
            merchant,
            amount,
            interval_seconds,
            usage_enabled,
            lifetime_cap,
        )
    }

    /// Creates a token-specific plan template.
    pub fn create_plan_template_with_token(
        &mut self,
        call: &Call,
        merchant: Address,
        token: Address,
        amount: i128,
        interval_seconds: u64,
        usage_enabled: bool,
        lifetime_cap: Option<i128>,
    ) -> (result: Result<u32, Error>)
        requires
            call.signed_by(merchant),
            token_plan_refusal(old(self)@, token, lifetime_cap) is None
                ==> old(self)@.next_plan_id < u32::MAX,
        ensures
            match token_plan_refusal(old(self)@, token, lifetime_cap) {
                Some(e) => refuses(result, e, old(self)@, final(self)@),
                None => yields(
                    result,
                    old(self)@.next_plan_id,
                    with_plan(
                        old(self)@,
                        first_version(
                            old(self)@,
                            merchant,
                            token,
                            amount,
                            interval_seconds,
                            usage_enabled,
                            lifetime_cap,
                        ),
                    ),
                    final(self)@,
                ),
            },
            final(self)@ == after(
                old(self)@,
                moment(*call),
                Operation::CreatePlanTemplateWithToken {
                    merchant,
                    token,
                    amount,
                    interval_seconds,
                    usage_enabled,
                    lifetime_cap,
                },
            ),
    {
        proof {
            reveal(is_refused);
        }
        do_create_plan_template_with_token(
            self,
            call,
            merchant,
            token,
            amount,
            interval_seconds,
            usage_enabled,
            lifetime_cap,
        )
    }

    /// Creates a subscription from a predefined plan template.
    pub fn create_subscription_from_plan(
        &mut self,
        call: &Call,
        subscriber: Address,
        plan_template_id: u32,
    ) -> (result: Result<u32, Error>)
        requires
            call.signed_by(subscriber),
        ensures
            match from_plan_refusal(old(self)@, subscriber, plan_template_id) {
                Some(e) => refuses(result, e, old(self)@, final(self)@),
                None => yields(
                    result,
                    old(self)@.next_id,
                    VaultState {
                        plan_of: old(self)@.plan_of.insert(
                            old(self)@.next_id,
                            plan_template_id,
                        ),
                        ..with_subscription(
                            old(self)@,
                            planned(
                                subscriber,
                                old(self)@.plans[plan_template_id],
                                call.now,
                            ),
                        )
                    },
                    final(self)@,
                ),
            },
            final(self)@ == after(
                old(self)@,
                moment(*call),
                Operation::CreateSubscriptionFromPlan { subscriber, plan_template_id },
            ),
    {
        proof {
            reveal(is_refused);
        }
        do_create_subscription_from_plan(self, call, subscriber, plan_template_id)
    }

    /// Retrieves a plan template by its ID.
    pub fn get_plan_template(&self, plan_template_id: u32) -> (result: Result<
        PlanTemplate,
        Error,
    >)
        ensures
            result == plan_found(self@, plan_template_id),
    {
        get_plan_template(self, plan_template_id)
    }

    /// Updates an existing plan template by creating a new version.
    ///
    /// The existing template stays as it is. The new one shares its `template_key` and has
    /// the next `version`. Existing subscriptions continue to use their own template
    /// until explicitly migrated.
    pub fn update_plan_template(
        &mut self,
        call: &Call,
        merchant: Address,
        plan_template_id: u32,
        amount: i128,
        interval_seconds: u64,
        usage_enabled: bool,
        lifetime_cap: Option<i128>,
    ) -> (result: Result<u32, Error>)
        requires
            call.signed_by(merchant),
            plan_update_refusal(old(self)@, merchant, plan_template_id, lifetime_cap) is None
                ==> {
                &&& old(self)@.next_plan_id < u32::MAX
                &&& old(self)@.plans[plan_template_id].version < u32::MAX
            },
        ensures
            match plan_update_refusal(old(self)@, merchant, plan_template_id, lifetime_cap) {
                Some(e) => refuses(result, e, old(self)@, final(self)@),
                None => yields(
                    result,
                    old(self)@.next_plan_id,
                    plan_updated(
                        old(self)@,
                        plan_template_id,
                        next_version(
                            old(self)@.plans[plan_template_id],
                            amount,
                            interval_seconds,
                            usage_enabled,
                            lifetime_cap,
                        ),
                        call.now,
                    ),
                    final(self)@,
                ),
            },
            final(self)@ == after(
                old(self)@,
                moment(*call),
                Operation::UpdatePlanTemplate {
                    merchant,
                    plan_template_id,
                    amount,
                    interval_seconds,
                    usage_enabled,
                    lifetime_cap,
                },
            ),
    {
        proof {
            reveal(is_refused);
        }
        do_update_plan_template(
            self,
            call,
            merchant,
            plan_template_id,
            amount,
            interval_seconds,
            usage_enabled,
            lifetime_cap,
        )
    }

    /// Configure the maximum number of concurrent active subscriptions a subscriber may hold
    /// for a given plan template.
    ///
    /// When `max_active` is zero, no limit is enforced for that plan. This limit is checked
    /// when creating subscriptions from the plan. Only the plan's merchant may call this.
    pub fn set_plan_max_active_subs(
        &mut self,
        call: &Call,
        merchant: Address,
        plan_template_id: u32,
        max_active: u32,
    ) -> (result: Result<(), Error>)
        requires
            call.signed_by(merchant),
        ensures
            match plan_limit_refusal(old(self)@, merchant, plan_template_id) {
                Some(e) => refuses(result, e, old(self)@, final(self)@),
                None => yields(
                    result,
                    (),
                    VaultState {
                        plan_limits: old(self)@.plan_limits.insert(
                            plan_template_id,
                            max_active,
                        ),
                        ..old(self)@
                    },
                    final(self)@,
                ),
            },
            final(self)@ == after(
                old(self)@,
                moment(*call),
                Operation::SetPlanMaxActiveSubs { merchant, plan_template_id, max_active },
            ),
    {
        proof {
            reveal(is_refused);
        }
        do_set_plan_max_active_subs(self, call, merchant, plan_template_id, max_active)
    }

    /// Returns the configured max-active-subscriptions limit for a plan template, 0 where
    /// there is none.
    pub fn get_plan_max_active_subs(&self, plan_template_id: u32) -> (limit: u32)
        ensures
            limit == plan_limit(self@, plan_template_id),
    {
        get_plan_max_active_subs(self, plan_template_id)
    }

    /// Migrates an existing subscription to a newer version of the same plan template.
    ///
    /// The subscriber must authorize this call. Migration is only allowed between plan
    /// versions that share the same `template_key`, and only from an older version to a
    /// newer one. The settlement token cannot change as part of migration, and lifetime caps
    /// are validated for compatibility.
    pub fn migrate_subscription_to_plan(
        &mut self,
        call: &Call,
        subscriber: Address,
        subscription_id: u32,
        new_plan_template_id: u32,
    ) -> (result: Result<(), Error>)
        requires
            call.signed_by(subscriber),
        ensures
            match migration_refusal(
                old(self)@,
                subscriber,
                subscription_id,
                new_plan_template_id,
            ) {
                Some(e) => refuses(result, e, old(self)@, final(self)@),
                None => yields(
                    result,
                    (),
                    migrated(old(self)@, subscription_id, new_plan_template_id, call.now),
                    final(self)@,
                ),
            },
            final(self)@ == after(
                old(self)@,
                moment(*call),
                Operation::MigrateSubscriptionToPlan {
                    subscriber,
                    subscription_id,
                    new_plan_template_id,
                },
            ),
    {
        proof {
            reveal(is_refused);
        }
        do_migrate_subscription_to_plan(
            self,
            call,
            subscriber,
            subscription_id,
            new_plan_template_id,
        )
    }

    /// Set a per-subscriber credit limit for a specific settlement token. Admin only.
    ///
    /// The limit is expressed in token base units and applies across all of the
    /// subscriber's subscriptions using that token. When the aggregate exposure (prepaid
    /// balances plus expected interval liabilities) would exceed this value, new
    /// subscriptions and top-ups are rejected.
    pub fn set_subscriber_credit_limit(
        &mut self,
        call: &Call,
        admin: Address,
        subscriber: Address,
        token: Address,
        limit: i128,
    ) -> (result: Result<(), Error>)
        requires
            call.signed_by(admin),
        ensures
            match admin_refusal(old(self)@, admin) {
                Some(e) => refuses(result, e, old(self)@, final(self)@),
                None => yields(
                    result,
                    (),
                    VaultState {
                        credit_limits: old(self)@.credit_limits.insert(
                            Bucket { holder: subscriber, token },
                            limit,
                        ),
                        ..old(self)@
                    },
                    final(self)@,
                ),
            },
            final(self)@ == after(
                old(self)@,
                moment(*call),
                Operation::SetSubscriberCreditLimit {
                    admin,
                    subscriber,
                    token,
                    credit_limit: limit,
                },
            ),
    {
        proof {
            reveal(is_refused);
        }
        do_set_subscriber_credit_limit(self, call, admin, subscriber, token, limit)
    }

    /// Read the configured credit limit for a subscriber and token.
    ///
    /// Returns 0 when no limit is configured, meaning "no limit".
    pub fn get_subscriber_credit_limit(&self, subscriber: Address, token: Address) -> (limit: i128)
        ensures
            limit == credit_limit(self@, Bucket { holder: subscriber, token }),
    {
        get_subscriber_credit_limit(self, subscriber, token)
    }

    /// Return the current aggregate exposure for a subscriber and token.
    ///
    /// Exposure is defined as the sum of prepaid balances plus the next-interval amounts for
    /// active subscriptions.
    pub fn get_subscriber_exposure(
        &self,
        subscriber: Address,
        token: Address,
    ) -> (result: Result<i128, Error>)
        ensures
            result == exposure(self@, Bucket { holder: subscriber, token }),
    {
        get_subscriber_exposure(self, subscriber, token)
    }

    /// Cancel the subscription. Allowed from every status. Transitions to the terminal
    /// `Cancelled` state.
    pub fn cancel_subscription(
        &mut self,
        call: &Call,
        subscription_id: u32,
        authorizer: Address,
    ) -> (result: Result<(), Error>)
        requires
            call.signed_by(authorizer),
        ensures
            match status_refusal(
                old(self)@,
                subscription_id,
                authorizer,
                SubscriptionStatus::Cancelled,
            ) {
                Some(e) => refuses(result, e, old(self)@, final(self)@),
                None => yields(
                    result,
                    (),
                    with_status(
                        old(self)@,
                        subscription_id,
                        SubscriptionStatus::Cancelled,
                        cancelled_event(old(self)@, subscription_id, authorizer),
                    ),
                    final(self)@,
                ),
            },
            final(self)@ == after(
                old(self)@,
                moment(*call),
                Operation::CancelSubscription { subscription_id, authorizer },
            ),
    {
        proof {
            reveal(is_refused);
        }
        do_cancel_subscription(self, call, subscription_id, authorizer)
    }

    /// Subscriber withdraws their remaining prepaid balance after cancellation.
    pub fn withdraw_subscriber_funds(
        &mut self,
        call: &Call,
        subscription_id: u32,
        subscriber: Address,
    ) -> (result: Result<(), Error>)
        requires
            call.signed_by(subscriber),
        ensures
            match withdrawal_refusal(old(self)@, subscription_id, subscriber) {
                Some(e) => refuses(result, e, old(self)@, final(self)@),
                None => yields(
                    result,
                    (),
                    withdrawn(old(self)@, subscription_id, subscriber, call.contract),
                    final(self)@,
                ),
            },
            final(self)@ == after(
                old(self)@,
                moment(*call),
                Operation::WithdrawSubscriberFunds { subscription_id, subscriber },
            ),
    {
        proof {
            reveal(is_refused);
        }
        do_withdraw_subscriber_funds(self, call, subscription_id, subscriber)
    }

    /// Process a partial refund against a subscription's remaining prepaid balance.
    ///
    /// Only the admin may authorize partial refunds. The refunded amount is debited from the
    /// subscription's `prepaid_balance` and transferred back to the subscriber.
    pub fn partial_refund(
        &mut self,
        call: &Call,
        admin: Address,
        subscription_id: u32,
        subscriber: Address,
        amount: i128,
    ) -> (result: Result<(), Error>)
        requires
            call.signed_by(admin),
        ensures
            match refund_refusal(old(self)@, admin, subscription_id, subscriber, amount) {
                Some(e) => refuses(result, e, old(self)@, final(self)@),
                None => yields(
                    result,
                    (),
                    refunded(old(self)@, subscription_id, amount, call.contract, call.now),
                    final(self)@,
                ),
            },
            final(self)@ == after(
                old(self)@,
                moment(*call),
                Operation::PartialRefund { admin, subscription_id, subscriber, amount },
            ),
    {
        proof {
            reveal(is_refused);
        }
        do_partial_refund(self, call, admin, subscription_id, subscriber, amount)
    }

    /// Pause subscription (no charges until resumed). Allowed from Active.
    pub fn pause_subscription(
        &mut self,
        call: &Call,
        subscription_id: u32,
        authorizer: Address,
    ) -> (result: Result<(), Error>)
        requires
            call.signed_by(authorizer),
        ensures
            match status_refusal(
                old(self)@,
                subscription_id,
                authorizer,
                SubscriptionStatus::Paused,
            ) {
                Some(e) => refuses(result, e, old(self)@, final(self)@),
                None => yields(
                    result,
                    (),
                    with_status(
                        old(self)@,
                        subscription_id,
                        SubscriptionStatus::Paused,
                        Event::SubscriptionPaused(
                            SubscriptionPausedEvent { subscription_id, authorizer },
                        ),
                    ),
                    final(self)@,
                ),
            },
            final(self)@ == after(
                old(self)@,
                moment(*call),
                Operation::PauseSubscription { subscription_id, authorizer },
            ),
    {
        proof {
            reveal(is_refused);
        }
        do_pause_subscription(self, call, subscription_id, authorizer)
    }

    /// Resume a subscription to Active. Allowed from Paused, GracePeriod, or
    /// InsufficientBalance.
    pub fn resume_subscription(
        &mut self,
        call: &Call,
        subscription_id: u32,
        authorizer: Address,
    ) -> (result: Result<(), Error>)
        requires
            call.signed_by(authorizer),
        ensures
            match resume_refusal(old(self)@, subscription_id, authorizer, call.now) {
                Some(e) => refuses(result, e, old(self)@, final(self)@),
                None => yields(
                    result,
                    (),
                    with_status(
                        old(self)@,
                        subscription_id,
                        SubscriptionStatus::Active,
                        Event::SubscriptionResumed(
                            SubscriptionResumedEvent { subscription_id, authorizer },
                        ),
                    ),
                    final(self)@,
                ),
            },
            final(self)@ == after(
                old(self)@,
                moment(*call),
                Operation::ResumeSubscription { subscription_id, authorizer },
            ),
    {
        proof {
            reveal(is_refused);
        }
        do_resume_subscription(self, call, subscription_id, authorizer)
    }

    /// Merchant-initiated one-off charge against the subscription's prepaid balance.
    pub fn charge_one_off(
        &mut self,
        call: &Call,
        subscription_id: u32,
        merchant: Address,
        amount: i128,
    ) -> (result: Result<(), Error>)
        requires
            call.signed_by(merchant),
        ensures
            (final(self)@, result) == one_off_charge(
                old(self)@,
                subscription_id,
                merchant,
                amount,
                call.now,
            ),
            final(self)@ == after(
                old(self)@,
                moment(*call),
                Operation::ChargeOneOff { subscription_id, merchant, amount },
            ),
    {
        proof {
            reveal(is_refused);
        }
        do_charge_one_off(self, call, subscription_id, merchant, amount)
    }

    // ── Charging ─────────────────────────────────────────────────────────────

    /// Charge a subscription for one billing interval.
    ///
    /// **This function is disabled when the emergency stop is active.**
    ///
    /// Enforces strict interval timing and replay protection. Underfunded attempts move the
    /// subscription into a recoverable non-active state and publish a charge-failed event
    /// without mutating financial accounting fields. `quote` is what the price oracle
    /// reports; it is not read while oracle pricing is off.
    pub fn charge_subscription(
        &mut self,
        call: &Call,
        subscription_id: u32,
        quote: &OraclePrice,
    ) -> (result: Result<ChargeExecutionResult, Error>)
        requires
            old(self)@.config.emergency_stop || has_period(old(self)@, subscription_id),
        ensures
            if old(self)@.config.emergency_stop {
                refuses(result, Error::EmergencyStopActive, old(self)@, final(self)@)
            } else {
                let (after, outcome) = interval_charge(
                    old(self)@,
                    subscription_id,
                    call.now,
                    None,
                    *quote,
                );
                final(self)@ == after && result == execution(outcome)
            },
            final(self)@ == after(
                old(self)@,
                moment(*call),
                Operation::ChargeInterval {
                    subscription_id,
                    idempotency_key: None,
                    quote: *quote,
                },
            ),
    {
        proof {
            reveal(is_refused);
        }
        match require_not_emergency_stop(self) {
            Err(e) => return Err(e),
            Ok(()) => {},
        }
        match charge_one(self, subscription_id, call.now, None, quote) {
            Ok(()) => Ok(ChargeExecutionResult::Charged),
            Err(Error::InsufficientBalance) => Ok(ChargeExecutionResult::InsufficientBalance),
            Err(Error::LifetimeCapReached) => Ok(ChargeExecutionResult::LifetimeCapReached),
            Err(e) => Err(e),
        }
    }

    /// Charge a metered usage amount against the subscription's prepaid balance.
    ///
    /// **This function is disabled when the emergency stop is active.**
    pub fn charge_usage(
        &mut self,
        call: &Call,
        subscription_id: u32,
        usage_amount: i128,
    ) -> (result: Result<(), Error>)
        ensures
            if old(self)@.config.emergency_stop {
                refuses(result, Error::EmergencyStopActive, old(self)@, final(self)@)
            } else {
                let (after, outcome) = usage_charge(
                    old(self)@,
                    subscription_id,
                    usage_amount,
                    plain_usage_reference(),
                    call.now,
                );
                final(self)@ == after && result == usage_execution(outcome)
            },
            final(self)@ == after(
                old(self)@,
                moment(*call),
                Operation::ChargeUsage {
                    subscription_id,
                    usage_amount,
                    reference: plain_usage_reference(),
                },
            ),
    {
        proof {
            reveal(is_refused);
        }
        let reference: Vec<u8> = vec![0x75u8, 0x73u8, 0x61u8, 0x67u8, 0x65u8];
        assert(reference@ =~= plain_usage_reference());
        self.charge_usage_with_reference(call, subscription_id, usage_amount, &reference)
    }

    /// Charge a metered usage amount against the subscription's prepaid balance with a
    /// reference.
    ///
    /// **This function is disabled when the emergency stop is active.**
    pub fn charge_usage_with_reference(
        &mut self,
        call: &Call,
        subscription_id: u32,
        usage_amount: i128,
        reference: &Vec<u8>,
    ) -> (result: Result<(), Error>)
        ensures
            if old(self)@.config.emergency_stop {
                refuses(result, Error::EmergencyStopActive, old(self)@, final(self)@)
            } else {
                let (after, outcome) = usage_charge(
                    old(self)@,
                    subscription_id,
                    usage_amount,
                    reference@,
                    call.now,
                );
                final(self)@ == after && result == usage_execution(outcome)
            },
            final(self)@ == after(
                old(self)@,
                moment(*call),
                Operation::ChargeUsage { subscription_id, usage_amount, reference: reference@ },
            ),
    {
        proof {
            reveal(is_refused);
        }
        match require_not_emergency_stop(self) {
            Err(e) => return Err(e),
            Ok(()) => {},
        }
        match charge_usage_one(self, subscription_id, usage_amount, reference, call.now) {
            Err(Error::LifetimeCapReached) => Ok(()),
            other => other,
        }
    }

    /// Configure usage rate limits and caps for a subscription. Merchant only.
    pub fn configure_usage_limits(
        &mut self,
        call: &Call,
        merchant: Address,
        subscription_id: u32,
        rate_limit_max_calls: Option<u32>,
        rate_window_secs: u64,
        burst_min_interval_secs: u64,
        usage_cap_units: Option<i128>,
    ) -> (result: Result<(), Error>)
        requires
            call.signed_by(merchant),
        ensures
            match usage_limits_refusal(old(self)@, merchant, subscription_id) {
                Some(e) => refuses(result, e, old(self)@, final(self)@),
                None => yields(
                    result,
                    (),
                    VaultState {
                        usage: Usage {
                            limits: old(self)@.usage.limits.insert(
                                subscription_id,
                                UsageLimits {
                                    rate_limit_max_calls,
                                    rate_window_secs,
                                    burst_min_interval_secs,
                                    usage_cap_units,
                                },
                            ),
                            ..old(self)@.usage
                        },
                        ..old(self)@
                    },
                    final(self)@,
                ),
            },
            final(self)@ == after(
                old(self)@,
                moment(*call),
                Operation::ConfigureUsageLimits {
                    merchant,
                    subscription_id,
                    limits: UsageLimits {
                        rate_limit_max_calls,
                        rate_window_secs,
                        burst_min_interval_secs,
                        usage_cap_units,
                    },
                },
            ),
    {
        proof {
            reveal(is_refused);
        }
        do_configure_usage_limits(
            self,
            call,
            merchant,
            subscription_id,
            rate_limit_max_calls,
            rate_window_secs,
            burst_min_interval_secs,
            usage_cap_units,
        )
    }

    // ── Merchant ─────────────────────────────────────────────────────────────

    /// Merchant withdraws accumulated earnings in the default token to their wallet.
    /// `custody` is what the vault holds of that token.
    pub fn withdraw_merchant_funds(
        &mut self,
        call: &Call,
        merchant: Address,
        amount: i128,
        custody: i128,
    ) -> (result: Result<(), Error>)
        requires
            call.signed_by(merchant),
        ensures
            match initialized(old(self)@.config.token) {
                Err(e) => refuses(result, e, old(self)@, final(self)@),
                Ok(token) => match payout_refusal(
                    old(self)@,
                    merchant,
                    token,
                    amount,
                    custody,
                ) {
                    Some(e) => refuses(result, e, old(self)@, final(self)@),
                    None => yields(
                        result,
                        (),
                        paid_out(old(self)@, merchant, token, amount, call.contract),
                        final(self)@,
                    ),
                },
            },
            old(self)@.config.token matches Some(token) ==> final(self)@ == after(
                old(self)@,
                moment(*call),
                Operation::WithdrawMerchantFunds { merchant, token, amount, custody },
            ),
    {
        proof {
            reveal(is_refused);
        }
        withdraw_merchant_funds(self, call, merchant, amount, custody)
    }

    /// Merchant withdraw for a specific token bucket. `custody` is what the vault holds of
    /// that token.
    pub fn withdraw_merchant_token_funds(
        &mut self,
        call: &Call,
        merchant: Address,
        token: Address,
        amount: i128,
        custody: i128,
    ) -> (result: Result<(), Error>)
        requires
            call.signed_by(merchant),
        ensures
            match payout_refusal(old(self)@, merchant, token, amount, custody) {
                Some(e) => refuses(result, e, old(self)@, final(self)@),
                None => yields(
                    result,
                    (),
                    paid_out(old(self)@, merchant, token, amount, call.contract),
                    final(self)@,
                ),
            },
            final(self)@ == after(
                old(self)@,
                moment(*call),
                Operation::WithdrawMerchantFunds { merchant, token, amount, custody },
            ),
    {
        proof {
            reveal(is_refused);
        }
        withdraw_merchant_funds_for_token(self, call, merchant, token, amount, custody)
    }

    /// A merchant pays part of its earnings back to a subscriber.
    pub fn merchant_refund(
        &mut self,
        call: &Call,
        merchant: Address,
        subscriber: Address,
        token: Address,
        amount: i128,
    ) -> (result: Result<(), Error>)
        requires
            call.signed_by(merchant),
        ensures
            match merchant_refund_refusal(old(self)@, merchant, token, amount) {
                Some(e) => refuses(result, e, old(self)@, final(self)@),
                None => yields(
                    result,
                    (),
                    merchant_refunded(
                        old(self)@,
                        merchant,
                        subscriber,
                        token,
                        amount,
                        call.contract,
                    ),
                    final(self)@,
                ),
            },
            final(self)@ == after(
                old(self)@,
                moment(*call),
                Operation::MerchantRefund { merchant, subscriber, token, amount },
            ),
    {
        proof {
            reveal(is_refused);
        }
        merchant_refund(self, call, merchant, subscriber, token, amount)
    }

    /// Get the merchant's accumulated balance in the default token.
    pub fn get_merchant_balance(&self, merchant: Address) -> (balance: i128)
        ensures
            balance == match self@.config.token {
                Some(token) => balance_of(self@.merchants, Bucket { holder: merchant, token }),
                None => 0,
            },
    {
        get_merchant_balance(self, &merchant)
    }

    /// Token-scoped merchant balance.
    pub fn get_merchant_balance_by_token(
        &self,
        merchant: Address,
        token: Address,
    ) -> (balance: i128)
        ensures
            balance == balance_of(self@.merchants, Bucket { holder: merchant, token }),
    {
        get_merchant_balance_by_token(self, &merchant, &token)
    }

    /// Detailed earnings of a merchant in one token.
    pub fn get_merchant_token_earnings(
        &self,
        merchant: Address,
        token: Address,
    ) -> (earnings: TokenEarnings)
        ensures
            earnings == earnings_of(self@.merchants, Bucket { holder: merchant, token }),
    {
        get_merchant_token_earnings(self, &merchant, &token)
    }

    /// Detailed earnings of a merchant for all tokens it has interacted with.
    pub fn get_merchant_total_earnings(&self, merchant: Address) -> (earnings: Vec<
        (Address, TokenEarnings),
    >)
        ensures
            forall|token: Address|
                has_earned(self@.merchants, merchant, token) <==> exists|i: int|
                    0 <= i < earnings@.len() && #[trigger] earnings@[i].0 == token,
            forall|i: int|
                0 <= i < earnings@.len() ==> (#[trigger] earnings@[i]).1 == earnings_of(
                    self@.merchants,
                    Bucket { holder: merchant, token: earnings@[i].0 },
                ),
            forall|i: int, j: int|
                0 <= i < j < earnings@.len() ==> (#[trigger] earnings@[i]).0 != (
                #[trigger] earnings@[j]).0,
    {
        get_merchant_total_earnings(self, &merchant)
    }

    /// Totals of a merchant's earnings for all tokens it has interacted with. Fails if and
    /// only if the totals of some token leave the range of amounts.
    pub fn get_reconciliation_snapshot(&self, merchant: Address) -> (result: Result<
        Vec<ReconciliationSnapshot>,
        Error,
    >)
        ensures
            match result {
                Ok(snapshots) => {
                    &&& forall|token: Address|
                        has_earned(self@.merchants, merchant, token) <==> exists|i: int|
                            0 <= i < snapshots@.len() && #[trigger] snapshots@[i].token == token
                    &&& forall|i: int|
                        0 <= i < snapshots@.len() ==> reconciled(
                            snapshots@[i].token,
                            earnings_of(
                                self@.merchants,
                                Bucket { holder: merchant, token: snapshots@[i].token },
                            ),
                        ) == Ok::<ReconciliationSnapshot, Error>(#[trigger] snapshots@[i])
                    &&& forall|i: int, j: int|
                        0 <= i < j < snapshots@.len() ==> (#[trigger] snapshots@[i]).token != (
                        #[trigger] snapshots@[j]).token
                },
                Err(e) => exists|token: Address| #[trigger]
                    has_earned(self@.merchants, merchant, token) && reconciled(
                        token,
                        earnings_of(self@.merchants, Bucket { holder: merchant, token }),
                    ) == Err::<ReconciliationSnapshot, Error>(e),
            },
    {
        get_reconciliation_snapshot(self, &merchant)
    }

    /// Check if a merchant has enabled a blanket pause.
    pub fn get_merchant_paused(&self, merchant: Address) -> (paused: bool)
        ensures
            paused == is_paused(self@.merchants, merchant),
    {
        get_merchant_paused(self, merchant)
    }

    /// Enable a blanket pause for all of the merchant's subscriptions.
    pub fn pause_merchant(&mut self, call: &Call, merchant: Address) -> (result: Result<(), Error>)
        requires
            call.signed_by(merchant),
        ensures
            yields(
                result,
                (),
                with_pause(old(self)@, merchant, true, call.now),
                final(self)@,
            ),
            final(self)@ == after(
                old(self)@,
                moment(*call),
                Operation::PauseMerchant { merchant },
            ),
    {
        proof {
            reveal(is_refused);
        }
        pause_merchant(self, call, merchant)
    }

    /// Disable a blanket pause for the merchant's subscriptions.
    pub fn unpause_merchant(
        &mut self,
        call: &Call,
        merchant: Address,
    ) -> (result: Result<(), Error>)
        requires
            call.signed_by(merchant),
        ensures
            yields(
                result,
                (),
                with_pause(old(self)@, merchant, false, call.now),
                final(self)@,
            ),
            final(self)@ == after(
                old(self)@,
                moment(*call),
                Operation::UnpauseMerchant { merchant },
            ),
    {
        proof {
            reveal(is_refused);
        }
        unpause_merchant(self, call, merchant)
    }

    // ── Queries ──────────────────────────────────────────────────────────────

    /// Read subscription by id.
    pub fn get_subscription(&self, subscription_id: u32) -> (result: Result<Subscription, Error>)
        ensures
            result == found(self@, subscription_id),
    {
        get_subscription(self, subscription_id)
    }

    /// Estimate how much a subscriber needs to deposit to cover N future intervals.
    pub fn estimate_topup_for_intervals(
        &self,
        subscription_id: u32,
        num_intervals: u32,
    ) -> (result: Result<i128, Error>)
        ensures
            result == match found(self@, subscription_id) {
                Ok(sub) => topup_for(sub, num_intervals),
                Err(e) => Err(e),
            },
    {
        estimate_topup_for_intervals(self, subscription_id, num_intervals)
    }

    /// Get estimated next charge info (timestamp + whether charge is expected).
    pub fn get_next_charge_info(&self, subscription_id: u32) -> (result: Result<
        NextChargeInfo,
        Error,
    >)
        ensures
            result == match found(self@, subscription_id) {
                Ok(sub) => Ok(next_charge(sub)),
                Err(e) => Err(e),
            },
    {
        match get_subscription(self, subscription_id) {
            Ok(sub) => Ok(compute_next_charge_info(&sub)),
            Err(e) => Err(e),
        }
    }

    /// Return subscriptions for a merchant, paginated.
    pub fn get_subscriptions_by_merchant(
        &self,
        merchant: Address,
        start: u32,
        limit: u32,
    ) -> (result: Result<Vec<Subscription>, Error>)
        ensures
            match result {
                Err(e) => !is_valid_page(limit) && e == Error::InvalidInput,
                Ok(subscriptions) => is_valid_page(limit) && subscriptions@ == existing(
                    self@,
                    window(listed(self@.by_merchant, merchant), start as int, limit as int),
                ),
            },
    {
        get_subscriptions_by_merchant(self, merchant, start, limit)
    }

    /// Return the total number of subscriptions ever created.
    pub fn get_subscription_count(&self) -> (count: u32)
        ensures
            count == self@.next_id,
    {
        self.next_id
    }

    /// Return the total number of subscriptions for a merchant.
    pub fn get_merchant_subscription_count(&self, merchant: Address) -> (count: u32)
        requires
            listed(self@.by_merchant, merchant).len() <= u32::MAX,
        ensures
            count == listed(self@.by_merchant, merchant).len(),
    {
        get_merchant_subscription_count(self, merchant)
    }

    /// Return the total number of subscriptions in a token.
    pub fn get_token_subscription_count(&self, token: Address) -> (count: u32)
        requires
            listed(self@.by_token, token).len() <= u32::MAX,
        ensures
            count == listed(self@.by_token, token).len(),
    {
        get_token_subscription_count(self, token)
    }

    /// List all subscription IDs for a given subscriber with pagination.
    pub fn list_subscriptions_by_subscriber(
        &self,
        subscriber: Address,
        start_from_id: u32,
        limit: u32,
    ) -> (result: Result<SubscriptionsPage, Error>)
        ensures
            match result {
                Err(e) => !is_valid_page(limit) && e == Error::InvalidInput,
                Ok(page) => is_valid_page(limit) && lists(
                    page,
                    owned(self@, subscriber, start_from_id as int, self@.next_id as int),
                    limit,
                ),
            },
    {
        list_subscriptions_by_subscriber(self, subscriber, start_from_id, limit)
    }

    /// Get lifetime cap information for a subscription.
    ///
    /// When no cap is configured all cap-related fields return `None` / `false`.
    pub fn get_cap_info(&self, subscription_id: u32) -> (result: Result<CapInfo, Error>)
        ensures
            result == match found(self@, subscription_id) {
                Ok(sub) => Ok(cap_info(sub)),
                Err(e) => Err(e),
            },
    {
        get_cap_info(self, subscription_id)
    }

    /// Return subscription billing statements using offset/limit pagination.
    ///
    /// When `newest_first` is true (recommended for infinite scroll), offset 0 starts from
    /// the most recent statement.
    pub fn get_sub_statements_offset(
        &self,
        subscription_id: u32,
        offset: u32,
        limit: u32,
        newest_first: bool,
    ) -> (result: Result<BillingStatementsPage, Error>)
        ensures
            match result {
                Err(e) => limit == 0 && e == Error::InvalidInput,
                Ok(page) => limit != 0 && {
                    let sequences = page_by_offset(
                        self@.statements,
                        subscription_id,
                        offset,
                        limit,
                        newest_first,
                    );
                    shows(
                        page,
                        self@.statements,
                        subscription_id,
                        sequences,
                        cursor_after(
                            sequences,
                            limit,
                            counted(self@.statements.next, subscription_id),
                            newest_first,
                        ),
                    )
                },
            },
    {
        get_statements_by_subscription_offset(
            &self.statements,
            subscription_id,
            offset,
            limit,
            newest_first,
        )
    }

    /// Return subscription billing statements using cursor pagination.
    ///
    /// - `cursor`: sequence index to start from (inclusive); pass `None` for first page.
    /// - `limit`: maximum number of statements to return.
    /// - `newest_first`: return recent history first when true.
    pub fn get_sub_statements_cursor(
        &self,
        subscription_id: u32,
        cursor: Option<u32>,
        limit: u32,
        newest_first: bool,
    ) -> (result: Result<BillingStatementsPage, Error>)
        ensures
            match result {
                Err(e) => limit == 0 && e == Error::InvalidInput,
                Ok(page) => limit != 0 && {
                    let sequences = page_by_cursor(
                        self@.statements,
                        subscription_id,
                        cursor,
                        limit,
                        newest_first,
                    );
                    shows(
                        page,
                        self@.statements,
                        subscription_id,
                        sequences,
                        cursor_after(
                            sequences,
                            limit,
                            counted(self@.statements.next, subscription_id),
                            newest_first,
                        ),
                    )
                },
            },
    {
        get_statements_by_subscription_cursor(
            &self.statements,
            subscription_id,
            cursor,
            limit,
            newest_first,
        )
    }

    /// Add a token to the accepted token registry. Admin only.
    pub fn add_accepted_token(
        &mut self,
        call: &Call,
        admin: Address,
        token: Address,
        decimals: u32,
    ) -> (result: Result<(), Error>)
        requires
            call.signed_by(admin),
        ensures
            match admin_refusal(old(self)@, admin) {
                Some(e) => refuses(result, e, old(self)@, final(self)@),
                None => yields(
                    result,
                    (),
                    VaultState {
                        tokens: accepting(old(self)@.tokens, token, decimals),
                        ..old(self)@
                    },
                    final(self)@,
                ),
            },
            final(self)@ == after(
                old(self)@,
                moment(*call),
                Operation::AddAcceptedToken { admin, token, decimals },
            ),
    {
        proof {
            reveal(is_refused);
        }
        add_accepted_token(self, call, admin, token, decimals)
    }

    /// Remove a non-default token from accepted token registry. Admin only.
    pub fn remove_accepted_token(
        &mut self,
        call: &Call,
        admin: Address,
        token: Address,
    ) -> (result: Result<(), Error>)
        requires
            call.signed_by(admin),
        ensures
            match token_removal_refusal(old(self)@, admin, token) {
                Some(e) => refuses(result, e, old(self)@, final(self)@),
                None => yields(
                    result,
                    (),
                    VaultState {
                        tokens: old(self)@.tokens.remove(
                            position_of(old(self)@.tokens, token)->Some_0,
                        ),
                        ..old(self)@
                    },
                    final(self)@,
                ),
            },
            final(self)@ == after(
                old(self)@,
                moment(*call),
                Operation::RemoveAcceptedToken { admin, token },
            ),
    {
        proof {
            reveal(is_refused);
        }
        remove_accepted_token(self, call, admin, token)
    }

    /// List accepted token metadata.
    pub fn list_accepted_tokens(&self) -> (tokens: Vec<AcceptedToken>)
        ensures
            tokens@ == self@.tokens,
    {
        list_accepted_tokens(self)
    }

    /// Return subscriptions for a token, paginated by offset.
    pub fn get_subscriptions_by_token(
        &self,
        token: Address,
        start: u32,
        limit: u32,
    ) -> (subscriptions: Vec<Subscription>)
        ensures
            subscriptions@ == existing(
                self@,
                window(listed(self@.by_token, token), start as int, limit as int),
            ),
    {
        let ids = self.by_token.ids_of(token);
        read_page(self, &ids, start, limit)
    }

    /// Configure statement retention (`keep_recent` detailed rows per subscription). Admin
    /// only.
    pub fn set_billing_retention(
        &mut self,
        call: &Call,
        admin: Address,
        keep_recent: u32,
    ) -> (result: Result<(), Error>)
        requires
            call.signed_by(admin),
        ensures
            match admin_refusal(old(self)@, admin) {
                Some(e) => refuses(result, e, old(self)@, final(self)@),
                None => yields(
                    result,
                    (),
                    VaultState {
                        statements: Statements {
                            keep_recent: Some(keep_recent),
                            ..old(self)@.statements
                        },
                        ..old(self)@
                    },
                    final(self)@,
                ),
            },
            final(self)@ == after(
                old(self)@,
                moment(*call),
                Operation::SetBillingRetention { admin, keep_recent },
            ),
    {
        proof {
            reveal(is_refused);
        }
        match require_admin_auth(self, call, &admin) {
            Err(e) => return Err(e),
            Ok(()) => {},
        }
        set_retention_config(&mut self.statements, keep_recent);
        Ok(())
    }

    /// Read current statement retention config.
    pub fn get_billing_retention(&self) -> (config: BillingRetentionConfig)
        ensures
            config.keep_recent == retention(self@.statements),
    {
        get_retention_config(&self.statements)
    }

    /// Return compacted aggregate totals for a subscription.
    pub fn get_stmt_compacted_aggregate(
        &self,
        subscription_id: u32,
    ) -> (aggregate: BillingStatementAggregate)
        ensures
            aggregate == compacted(self@.statements, subscription_id),
    {
        get_compacted_aggregate(&self.statements, subscription_id)
    }

    /// Run compaction for one subscription. Admin only.
    pub fn compact_billing_statements(
        &mut self,
        call: &Call,
        admin: Address,
        subscription_id: u32,
        keep_recent_override: Option<u32>,
    ) -> (result: Result<BillingCompactionSummary, Error>)
        requires
            call.signed_by(admin),
        ensures
            match admin_refusal(old(self)@, admin) {
                Some(e) => refuses(result, e, old(self)@, final(self)@),
                None => {
                    let (statements, outcome) = compaction(
                        old(self)@.statements,
                        subscription_id,
                        keep_threshold(old(self)@.statements, keep_recent_override),
                    );
                    match outcome {
                        Err(e) => refuses(result, e, old(self)@, final(self)@),
                        Ok(summary) => yields(
                            result,
                            summary,
                            with_compaction(
                                old(self)@,
                                statements,
                                summary,
                                admin,
                                call.now,
                            ),
                            final(self)@,
                        ),
                    }
                },
            },
            final(self)@ == after(
                old(self)@,
                moment(*call),
                Operation::CompactBillingStatements {
                    admin,
                    subscription_id,
                    keep_recent_override,
                },
            ),
    {
        proof {
            reveal(is_refused);
        }
        match require_admin_auth(self, call, &admin) {
            Err(e) => return Err(e),
            Ok(()) => {},
        }
        let summary = match compact_subscription_statements(
            &mut self.statements,
            subscription_id,
            keep_recent_override,
        ) {
            Ok(summary) => summary,
            Err(e) => return Err(e),
        };
        let aggregate = get_compacted_aggregate(&self.statements, subscription_id);
        self.outbox.publish(
            Event::BillingCompacted(
                BillingCompactedEvent {
                    admin,
                    subscription_id,
                    pruned_count: summary.pruned_count,
                    kept_count: summary.kept_count,
                    total_pruned_amount: summary.total_pruned_amount,
                    aggregate_pruned_count: aggregate.pruned_count,
                    aggregate_total_amount: aggregate.total_amount,
                    aggregate_oldest_period_start: aggregate.oldest_period_start,
                    aggregate_newest_period_end: aggregate.newest_period_end,
                    timestamp: call.now,
                },
            ),
        );
        Ok(summary)
    }

    /// Configure optional price oracle for cross-currency pricing. Admin only.
    pub fn set_oracle_config(
        &mut self,
        call: &Call,
        admin: Address,
        enabled: bool,
        oracle: Option<Address>,
        max_age_seconds: u64,
    ) -> (result: Result<(), Error>)
        requires
            call.signed_by(admin),
        ensures
            match admin_refusal(old(self)@, admin) {
                Some(e) => refuses(result, e, old(self)@, final(self)@),
                None => match oracle_config_refusal(enabled, oracle, max_age_seconds) {
                    Some(e) => refuses(result, e, old(self)@, final(self)@),
                    None => yields(
                        result,
                        (),
                        VaultState {
                            config: Config {
                                oracle: OracleConfig { enabled, oracle, max_age_seconds },
                                ..old(self)@.config
                            },
                            ..old(self)@
                        },
                        final(self)@,
                    ),
                },
            },
            final(self)@ == after(
                old(self)@,
                moment(*call),
                Operation::SetOracleConfig { admin, enabled, oracle, max_age_seconds },
            ),
    {
        proof {
            reveal(is_refused);
        }
        match require_admin_auth(self, call, &admin) {
            Err(e) => return Err(e),
            Ok(()) => {},
        }
        set_oracle_config(self, enabled, oracle, max_age_seconds)
    }

    /// Read the currently configured oracle integration settings.
    pub fn get_oracle_config(&self) -> (config: OracleConfig)
        ensures
            config == self@.config.oracle,
    {
        get_oracle_config(self)
    }

    // ── Metadata ─────────────────────────────────────────────────────────────

    /// Set or update a metadata key-value pair on a subscription.
    ///
    /// Authorization: subscriber or merchant. Does not affect financial state (balances,
    /// status, charges).
    pub fn set_metadata(
        &mut self,
        call: &Call,
        subscription_id: u32,
        authorizer: Address,
        key: Vec<u8>,
        value: Vec<u8>,
    ) -> (result: Result<(), Error>)
        requires
            call.signed_by(authorizer),
        ensures
            match set_refusal(old(self)@, subscription_id, authorizer, key@, value@) {
                Some(e) => refuses(result, e, old(self)@, final(self)@),
                None => yields(
                    result,
                    (),
                    VaultState {
                        metadata: with_entry(
                            old(self)@.metadata,
                            MetadataEntry { subscription_id, key: key@, value: value@ },
                        ),
                        outbox: old(self)@.outbox.push(
                            Effect::Publish(
                                Event::MetadataSet(
                                    MetadataSetEvent { subscription_id, key: key@, authorizer },
                                ),
                            ),
                        ),
                        ..old(self)@
                    },
                    final(self)@,
                ),
            },
            final(self)@ == after(
                old(self)@,
                moment(*call),
                Operation::SetMetadata {
                    subscription_id,
                    authorizer,
                    key: key@,
                    value: value@,
                },
            ),
    {
        proof {
            reveal(is_refused);
        }
        do_set_metadata(self, call, subscription_id, &authorizer, key, value)
    }

    /// Delete a metadata key from a subscription.
    ///
    /// Authorization: subscriber or merchant.
    pub fn delete_metadata(
        &mut self,
        call: &Call,
        subscription_id: u32,
        authorizer: Address,
        key: Vec<u8>,
    ) -> (result: Result<(), Error>)
        requires
            call.signed_by(authorizer),
        ensures
            match delete_refusal(old(self)@, subscription_id, authorizer, key@) {
                Some(e) => refuses(result, e, old(self)@, final(self)@),
                None => yields(
                    result,
                    (),
                    VaultState {
                        metadata: without_entry(old(self)@.metadata, subscription_id, key@),
                        outbox: old(self)@.outbox.push(
                            Effect::Publish(
                                Event::MetadataDeleted(
                                    MetadataDeletedEvent {
                                        subscription_id,
                                        key: key@,
                                        authorizer,
                                    },
                                ),
                            ),
                        ),
                        ..old(self)@
                    },
                    final(self)@,
                ),
            },
            final(self)@ == after(
                old(self)@,
                moment(*call),
                Operation::DeleteMetadata { subscription_id, authorizer, key: key@ },
            ),
    {
        proof {
            reveal(is_refused);
        }
        do_delete_metadata(self, call, subscription_id, &authorizer, key)
    }

    /// Get a metadata value by key.
    pub fn get_metadata(&self, subscription_id: u32, key: Vec<u8>) -> (result: Result<
        Vec<u8>,
        Error,
    >)
        ensures
            match result {
                Ok(value) => self@.subscriptions.contains_key(subscription_id) && value_of(
                    self@.metadata,
                    subscription_id,
                    key@,
                ) == Some(value@),
                Err(e) => e == Error::NotFound && (!self@.subscriptions.contains_key(
                    subscription_id,
                ) || value_of(self@.metadata, subscription_id, key@) is None),
            },
    {
        do_get_metadata(self, subscription_id, key)
    }

    /// List all metadata keys for a subscription.
    pub fn list_metadata_keys(&self, subscription_id: u32) -> (result: Result<
        Vec<Vec<u8>>,
        Error,
    >)
        ensures
            match result {
                Ok(keys) => self@.subscriptions.contains_key(subscription_id) && viewed_items(
                    keys@,
                ) == keys_of(self@.metadata, subscription_id),
                Err(e) => e == Error::NotFound && !self@.subscriptions.contains_key(
                    subscription_id,
                ),
            },
    {
        do_list_metadata_keys(self, subscription_id)
    }

    // ── Blocklist ────────────────────────────────────────────────────────────

    /// Puts a subscriber on the blocklist: the admin any, a merchant its own.
    pub fn add_to_blocklist(
        &mut self,
        call: &Call,
        authorizer: Address,
        subscriber: Address,
        reason: Option<Vec<u8>>,
    ) -> (result: Result<(), Error>)
        requires
            call.signed_by(authorizer),
        ensures
            if may_block(old(self)@, authorizer, subscriber) {
                yields(
                    result,
                    (),
                    blocked(
                        old(self)@,
                        authorizer,
                        subscriber,
                        text_view(reason),
                        call.now,
                    ),
                    final(self)@,
                )
            } else {
                refuses(result, Error::Forbidden, old(self)@, final(self)@)
            },
            final(self)@ == after(
                old(self)@,
                moment(*call),
                Operation::AddToBlocklist { authorizer, subscriber, note: text_view(reason) },
            ),
    {
        proof {
            reveal(is_refused);
        }
        do_add_to_blocklist(self, call, authorizer, subscriber, reason)
    }

    /// Takes a subscriber off the blocklist. Admin only.
    pub fn remove_from_blocklist(
        &mut self,
        call: &Call,
        admin: Address,
        subscriber: Address,
    ) -> (result: Result<(), Error>)
        requires
            call.signed_by(admin),
        ensures
            match unblock_refusal(old(self)@, admin, subscriber) {
                Some(e) => refuses(result, e, old(self)@, final(self)@),
                None => yields(
                    result,
                    (),
                    VaultState {
                        blocklist: old(self)@.blocklist.remove(subscriber),
                        outbox: old(self)@.outbox.push(
                            Effect::Publish(
                                Event::BlocklistRemoved(
                                    BlocklistRemovedEvent {
                                        subscriber,
                                        removed_by: admin,
                                        timestamp: call.now,
                                    },
                                ),
                            ),
                        ),
                        ..old(self)@
                    },
                    final(self)@,
                ),
            },
            final(self)@ == after(
                old(self)@,
                moment(*call),
                Operation::RemoveFromBlocklist { admin, subscriber },
            ),
    {
        proof {
            reveal(is_refused);
        }
        do_remove_from_blocklist(self, call, admin, subscriber)
    }

    /// Why and by whom a subscriber was blocked.
    pub fn get_blocklist_entry(&self, subscriber: Address) -> (result: Result<
        BlocklistEntry<Vec<u8>>,
        Error,
    >)
        ensures
            match result {
                Ok(entry) => self@.blocklist.get(subscriber) == Some(entry@),
                Err(e) => e == Error::NotFound && !self@.blocklist.contains_key(subscriber),
            },
    {
        get_blocklist_entry(self, subscriber)
    }

    /// Whether a subscriber is on the blocklist.
    pub fn is_blocklisted(&self, subscriber: Address) -> (listed: bool)
        ensures
            listed == self@.blocklist.contains_key(subscriber),
    {
        is_blocklisted(self, &subscriber)
    }

    /// Set global configuration for a merchant.
    ///
    /// Authorization: merchant.
    pub fn set_merchant_config(
        &mut self,
        call: &Call,
        merchant: Address,
        fee_address: Option<Address>,
        redirect_url: Vec<u8>,
        is_paused: bool,
    ) -> (result: Result<(), Error>)
        requires
            call.signed_by(merchant),
        ensures
            if redirect_url@.len() > MAX_REDIRECT_URL_LENGTH {
                refuses(result, Error::InvalidAmount, old(self)@, final(self)@)
            } else {
                yields(
                    result,
                    (),
                    VaultState {
                        merchants: Merchants {
                            configs: old(self)@.merchants.configs.insert(
                                merchant,
                                MerchantConfig {
                                    fee_address,
                                    redirect_url: redirect_url@,
                                    is_paused,
                                },
                            ),
                            ..old(self)@.merchants
                        },
                        ..old(self)@
                    },
                    final(self)@,
                )
            },
            final(self)@ == after(
                old(self)@,
                moment(*call),
                Operation::SetMerchantConfig {
                    merchant,
                    config: MerchantConfig {
                        fee_address,
                        redirect_url: redirect_url@,
                        is_paused,
                    },
                },
            ),
    {
        proof {
            reveal(is_refused);
        }
        set_merchant_config(
            self,
            call,
            merchant,
            MerchantConfig { fee_address, redirect_url, is_paused },
        )
    }

    /// Get the global configuration for a merchant.
    pub fn get_merchant_config(&self, merchant: Address) -> (config: Option<
        MerchantConfig<Vec<u8>>,
    >)
        ensures
            match config {
                Some(c) => self@.merchants.configs.get(merchant) == Some(c@),
                None => !self@.merchants.configs.contains_key(merchant),
            },
    {
        get_merchant_config(self, merchant)
    }
}

/// The state after a compaction run, which is published with the aggregate it leaves.
pub open spec fn with_compaction(
    s: VaultState,
    statements: Statements,
    summary: BillingCompactionSummary,
    admin: Address,
    now: u64,
) -> VaultState {
    let aggregate = compacted(statements, summary.subscription_id);
    VaultState {
        statements,
        outbox: s.outbox.push(
            Effect::Publish(
                Event::BillingCompacted(
                    BillingCompactedEvent {
                        admin,
                        subscription_id: summary.subscription_id,
                        pruned_count: summary.pruned_count,
                        kept_count: summary.kept_count,
                        total_pruned_amount: summary.total_pruned_amount,
                        aggregate_pruned_count: aggregate.pruned_count,
                        aggregate_total_amount: aggregate.total_amount,
                        aggregate_oldest_period_start: aggregate.oldest_period_start,
                        aggregate_newest_period_end: aggregate.newest_period_end,
                        timestamp: now,
                    },
                ),
            ),
        ),
        ..s
    }
}

} // verus!
