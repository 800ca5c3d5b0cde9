//! What an operation asks of the ledger: events to publish and tokens to transfer.
//!
//! The vault never reaches out itself. It queues its requests in an [`Outbox`], in the
//! order in which they are to be carried out, after its own state is up to date.
use crate::types::{
    text_view, Address, InsufficientBalanceError, RecoveryReason, SubscriptionStatus,
};
use vstd::prelude::*;

verus! {

/// Event emitted when subscriptions are exported for migration.
#[derive(Clone, Copy, Debug, PartialEq, Eq)]
pub struct MigrationExportEvent {
    pub admin: Address,
    pub start_id: u32,
    pub limit: u32,
    pub exported: u32,
    pub timestamp: u64,
}

/// Event emitted when the contract configuration is exported for migration.
#[derive(Clone, Copy, Debug, PartialEq, Eq)]
pub struct ContractSnapshotEvent {
    pub admin: Address,
    pub timestamp: u64,
}

/// Event emitted when statement compaction executes: totals of the run, and the
/// subscription's aggregate after it.
#[derive(Clone, Copy, Debug, PartialEq, Eq)]
pub struct BillingCompactedEvent {
    pub admin: Address,
    pub subscription_id: u32,
    pub pruned_count: u32,
    pub kept_count: u32,
    pub total_pruned_amount: i128,
    pub aggregate_pruned_count: u32,
    pub aggregate_total_amount: i128,
    pub aggregate_oldest_period_start: Option<u64>,
    pub aggregate_newest_period_end: Option<u64>,
    pub timestamp: u64,
}

/// Event emitted when emergency stop is enabled.
#[derive(Clone, Copy, Debug, PartialEq, Eq)]
pub struct EmergencyStopEnabledEvent {
    pub admin: Address,
    pub timestamp: u64,
}

/// Event emitted when emergency stop is disabled.
#[derive(Clone, Copy, Debug, PartialEq, Eq)]
pub struct EmergencyStopDisabledEvent {
    pub admin: Address,
    pub timestamp: u64,
}

/// Event emitted when the admin role moves to another address.
#[derive(Clone, Copy, Debug, PartialEq, Eq)]
pub struct AdminRotatedEvent {
    pub old_admin: Address,
    pub new_admin: Address,
    pub timestamp: u64,
}

/// Event emitted when admin recovers stranded funds.
#[derive(Clone, Copy, Debug, PartialEq, Eq)]
pub struct RecoveryEvent {
    pub admin: Address,
    pub recipient: Address,
    pub amount: i128,
    pub reason: RecoveryReason,
    pub timestamp: u64,
}

/// Event emitted when a subscription is created.
#[derive(Clone, Copy, Debug, PartialEq, Eq)]
pub struct SubscriptionCreatedEvent {
    pub subscription_id: u32,
    pub subscriber: Address,
    pub merchant: Address,
    pub amount: i128,
    pub interval_seconds: u64,
    pub lifetime_cap: Option<i128>,
}

/// Event emitted when funds are deposited into a subscription vault.
#[derive(Clone, Copy, Debug, PartialEq, Eq)]
pub struct FundsDepositedEvent {
    pub subscription_id: u32,
    pub subscriber: Address,
    pub amount: i128,
    /// The subscription's prepaid balance after the deposit.
    pub prepaid_balance: i128,
}

/// Event emitted when a subscription interval charge succeeds.
#[derive(Clone, Copy, Debug, PartialEq, Eq)]
pub struct SubscriptionChargedEvent {
    pub subscription_id: u32,
    pub merchant: Address,
    pub amount: i128,
    pub lifetime_charged: i128,
}

/// Event emitted when an interval charge finds the prepaid balance too small.
#[derive(Clone, Copy, Debug, PartialEq, Eq)]
pub struct ChargeFailedEvent {
    pub subscription_id: u32,
    pub merchant: Address,
    pub shortage: InsufficientBalanceError,
    /// Status of the subscription after the attempt.
    pub status: SubscriptionStatus,
    pub timestamp: u64,
}

/// Event emitted when a usage charge is applied. `B` is the type of text.
#[derive(Debug, PartialEq, Eq)]
pub struct UsageStatementEvent<B> {
    pub subscription_id: u32,
    pub merchant: Address,
    pub token: Address,
    pub usage_amount: i128,
    pub reference: B,
    pub timestamp: u64,
}

/// Event emitted when a subscription is cancelled.
#[derive(Clone, Copy, Debug, PartialEq, Eq)]
pub struct SubscriptionCancelledEvent {
    pub subscription_id: u32,
    pub authorizer: Address,
    /// The prepaid balance that the subscriber may now withdraw.
    pub refund_amount: i128,
}

/// Event emitted when a subscription is paused.
#[derive(Clone, Copy, Debug, PartialEq, Eq)]
pub struct SubscriptionPausedEvent {
    pub subscription_id: u32,
    pub authorizer: Address,
}

/// Event emitted when a subscription is resumed.
#[derive(Clone, Copy, Debug, PartialEq, Eq)]
pub struct SubscriptionResumedEvent {
    pub subscription_id: u32,
    pub authorizer: Address,
}

/// Event emitted when part of a prepaid balance is returned to its subscriber.
#[derive(Clone, Copy, Debug, PartialEq, Eq)]
pub struct PartialRefundEvent {
    pub subscription_id: u32,
    pub subscriber: Address,
    pub amount: i128,
    pub timestamp: u64,
}

/// Event emitted when a merchant withdraws funds.
#[derive(Clone, Copy, Debug, PartialEq, Eq)]
pub struct MerchantWithdrawalEvent {
    pub merchant: Address,
    pub token: Address,
    pub amount: i128,
    /// The merchant's balance in the token after the withdrawal.
    pub remaining_balance: i128,
}

/// Event emitted when a merchant pays part of its earnings back to a subscriber.
#[derive(Clone, Copy, Debug, PartialEq, Eq)]
pub struct MerchantRefundEvent {
    pub merchant: Address,
    pub subscriber: Address,
    pub token: Address,
    pub amount: i128,
}

/// Event emitted when a merchant enables their pause.
#[derive(Clone, Copy, Debug, PartialEq, Eq)]
pub struct MerchantPausedEvent {
    pub merchant: Address,
    pub timestamp: u64,
}

/// Event emitted when a merchant disables their pause.
#[derive(Clone, Copy, Debug, PartialEq, Eq)]
pub struct MerchantUnpausedEvent {
    pub merchant: Address,
    pub timestamp: u64,
}

/// Event emitted when a merchant-initiated one-off charge is applied.
#[derive(Clone, Copy, Debug, PartialEq, Eq)]
pub struct OneOffChargedEvent {
    pub subscription_id: u32,
    pub merchant: Address,
    pub amount: i128,
}

/// Event emitted when the lifetime charge cap is reached.
///
/// Signals that the subscription has been cancelled because it has been charged
/// up to its configured maximum total amount.
#[derive(Clone, Copy, Debug, PartialEq, Eq)]
pub struct LifetimeCapReachedEvent {
    pub subscription_id: u32,
    /// The configured lifetime cap that was reached.
    pub lifetime_cap: i128,
    /// Total charged at the point the cap was reached.
    pub lifetime_charged: i128,
    /// Timestamp when the cap was reached.
    pub timestamp: u64,
}

/// Event emitted when a plan template gets a new version.
#[derive(Clone, Copy, Debug, PartialEq, Eq)]
pub struct PlanTemplateUpdatedEvent {
    pub template_key: u32,
    pub old_plan_id: u32,
    pub new_plan_id: u32,
    pub version: u32,
    pub merchant: Address,
    pub timestamp: u64,
}

/// Event emitted when a subscription moves to a newer version of its plan.
#[derive(Clone, Copy, Debug, PartialEq, Eq)]
pub struct SubscriptionMigratedEvent {
    pub subscription_id: u32,
    pub template_key: u32,
    pub from_plan_id: u32,
    pub to_plan_id: u32,
    pub merchant: Address,
    pub subscriber: Address,
    pub timestamp: u64,
}

/// Event emitted when a metadata value is set. `B` is the type of text.
#[derive(Debug, PartialEq, Eq)]
pub struct MetadataSetEvent<B> {
    pub subscription_id: u32,
    pub key: B,
    pub authorizer: Address,
}

/// Event emitted when a metadata key is deleted. `B` is the type of text.
#[derive(Debug, PartialEq, Eq)]
pub struct MetadataDeletedEvent<B> {
    pub subscription_id: u32,
    pub key: B,
    pub authorizer: Address,
}

/// Event emitted when a subscriber is put on the blocklist. `B` is the type of text.
#[derive(Debug, PartialEq, Eq)]
pub struct BlocklistAddedEvent<B> {
    pub subscriber: Address,
    pub added_by: Address,
    pub timestamp: u64,
    pub reason: Option<B>,
}

/// Event emitted when a subscriber is taken off the blocklist.
#[derive(Clone, Copy, Debug, PartialEq, Eq)]
pub struct BlocklistRemovedEvent {
    pub subscriber: Address,
    pub removed_by: Address,
    pub timestamp: u64,
}

/// Any event the vault publishes. `B` is the type of text: bytes in running code,
/// sequences of bytes in contracts.
#[derive(Debug, PartialEq, Eq)]
pub enum Event<B> {
    ContractSnapshot(ContractSnapshotEvent),
    MigrationExport(MigrationExportEvent),
    EmergencyStopEnabled(EmergencyStopEnabledEvent),
    EmergencyStopDisabled(EmergencyStopDisabledEvent),
    AdminRotated(AdminRotatedEvent),
    Recovery(RecoveryEvent),
    SubscriptionCreated(SubscriptionCreatedEvent),
    FundsDeposited(FundsDepositedEvent),
    SubscriptionCharged(SubscriptionChargedEvent),
    ChargeFailed(ChargeFailedEvent),
    LifetimeCapReached(LifetimeCapReachedEvent),
    UsageStatement(UsageStatementEvent<B>),
    OneOffCharged(OneOffChargedEvent),
    SubscriptionCancelled(SubscriptionCancelledEvent),
    SubscriptionPaused(SubscriptionPausedEvent),
    SubscriptionResumed(SubscriptionResumedEvent),
    PartialRefund(PartialRefundEvent),
    MerchantWithdrawal(MerchantWithdrawalEvent),
    MerchantRefund(MerchantRefundEvent),
    MerchantPaused(MerchantPausedEvent),
    MerchantUnpaused(MerchantUnpausedEvent),
    PlanTemplateUpdated(PlanTemplateUpdatedEvent),
    SubscriptionMigrated(SubscriptionMigratedEvent),
    BillingCompacted(BillingCompactedEvent),
    MetadataSet(MetadataSetEvent<B>),
    MetadataDeleted(MetadataDeletedEvent<B>),
    BlocklistAdded(BlocklistAddedEvent<B>),
    BlocklistRemoved(BlocklistRemovedEvent),
}

impl View for Event<Vec<u8>> {
    type V = Event<Seq<u8>>;

    open spec fn view(&self) -> Event<Seq<u8>> {
        match *self {
            Event::ContractSnapshot(e) => Event::ContractSnapshot(e),
            Event::MigrationExport(e) => Event::MigrationExport(e),
            Event::EmergencyStopEnabled(e) => Event::EmergencyStopEnabled(e),
            Event::EmergencyStopDisabled(e) => Event::EmergencyStopDisabled(e),
            Event::AdminRotated(e) => Event::AdminRotated(e),
            Event::Recovery(e) => Event::Recovery(e),
            Event::SubscriptionCreated(e) => Event::SubscriptionCreated(e),
            Event::FundsDeposited(e) => Event::FundsDeposited(e),
            Event::SubscriptionCharged(e) => Event::SubscriptionCharged(e),
            Event::ChargeFailed(e) => Event::ChargeFailed(e),
            Event::LifetimeCapReached(e) => Event::LifetimeCapReached(e),
            Event::UsageStatement(e) => Event::UsageStatement(
                UsageStatementEvent {
                    subscription_id: e.subscription_id,
                    merchant: e.merchant,
                    token: e.token,
                    usage_amount: e.usage_amount,
                    reference: e.reference@,
                    timestamp: e.timestamp,
                },
            ),
            Event::OneOffCharged(e) => Event::OneOffCharged(e),
            Event::SubscriptionCancelled(e) => Event::SubscriptionCancelled(e),
            Event::SubscriptionPaused(e) => Event::SubscriptionPaused(e),
            Event::SubscriptionResumed(e) => Event::SubscriptionResumed(e),
            Event::PartialRefund(e) => Event::PartialRefund(e),
            Event::MerchantWithdrawal(e) => Event::MerchantWithdrawal(e),
            Event::MerchantRefund(e) => Event::MerchantRefund(e),
            Event::MerchantPaused(e) => Event::MerchantPaused(e),
            Event::MerchantUnpaused(e) => Event::MerchantUnpaused(e),
            Event::PlanTemplateUpdated(e) => Event::PlanTemplateUpdated(e),
            Event::SubscriptionMigrated(e) => Event::SubscriptionMigrated(e),
            Event::BillingCompacted(e) => Event::BillingCompacted(e),
            Event::MetadataSet(e) => Event::MetadataSet(
                MetadataSetEvent {
                    subscription_id: e.subscription_id,
                    key: e.key@,
                    authorizer: e.authorizer,
                },
            ),
            Event::MetadataDeleted(e) => Event::MetadataDeleted(
                MetadataDeletedEvent {
                    subscription_id: e.subscription_id,
                    key: e.key@,
                    authorizer: e.authorizer,
                },
            ),
            Event::BlocklistAdded(e) => Event::BlocklistAdded(
                BlocklistAddedEvent {
                    subscriber: e.subscriber,
                    added_by: e.added_by,
                    timestamp: e.timestamp,
                    reason: text_view(e.reason),
                },
            ),
            Event::BlocklistRemoved(e) => Event::BlocklistRemoved(e),
        }
    }
}

/// A transfer of tokens that the ledger is to carry out.
#[derive(Clone, Copy, Debug, PartialEq, Eq)]
pub struct TokenTransfer {
    pub token: Address,
    pub from: Address,
    pub to: Address,
    pub amount: i128,
}

/// One request of the vault to the ledger.
#[derive(Debug, PartialEq, Eq)]
pub enum Effect<B> {
    Publish(Event<B>),
    Transfer(TokenTransfer),
}

impl View for Effect<Vec<u8>> {
    type V = Effect<Seq<u8>>;

    open spec fn view(&self) -> Effect<Seq<u8>> {
        match *self {
            Effect::Publish(e) => Effect::Publish(e@),
            Effect::Transfer(t) => Effect::Transfer(t),
        }
    }
}

/// Requests to the ledger, oldest first.
pub struct Outbox {
    pub effects: Vec<Effect<Vec<u8>>>,
}

impl View for Outbox {
    type V = Seq<Effect<Seq<u8>>>;

    open spec fn view(&self) -> Seq<Effect<Seq<u8>>> {
        Seq::new(self.effects@.len(), |i: int| self.effects@[i]@)
    }
}

impl Outbox {
    /// An outbox without requests.
    pub fn new() -> (outbox: Outbox)
        ensures
            outbox@ == Seq::<Effect<Seq<u8>>>::empty(),
    {
        let outbox = Outbox { effects: Vec::new() };
        assert(outbox@ =~= Seq::<Effect<Seq<u8>>>::empty());
        outbox
    }

    /// Queues an event.
    pub fn publish(&mut self, event: Event<Vec<u8>>)
        ensures
            final(self)@ == old(self)@.push(Effect::Publish(event@)),
    {
        self.effects.push(Effect::Publish(event));
        assert(self@ =~= old(self)@.push(Effect::Publish(event@)));
    }

    /// Queues a token transfer.
    pub fn transfer(&mut self, transfer: TokenTransfer)
        ensures
            final(self)@ == old(self)@.push(Effect::Transfer(transfer)),
    {
        self.effects.push(Effect::Transfer(transfer));
        assert(self@ =~= old(self)@.push(Effect::Transfer(transfer)));
    }
}

} // verus!
