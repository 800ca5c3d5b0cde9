//! Data of the vault: addresses, errors, subscription records, plans, billing
//! statements, usage limits, and the events and token transfers an operation asks for.
use vstd::prelude::*;

verus! {

/// Thirty-two opaque bytes, big-endian, split into two words.
#[derive(Clone, Copy, Debug, PartialEq, Eq, Structural)]
pub struct Bytes32 {
    pub hi: u128,
    pub lo: u128,
}

/// Whether an address belongs to a signing account or to a contract.
#[derive(Clone, Copy, Debug, PartialEq, Eq, Structural)]
pub enum AddressKind {
    Account,
    Contract,
}

/// A ledger address: what kind of party it is and its thirty-two byte identity.
#[derive(Clone, Copy, Debug, PartialEq, Eq, Structural)]
pub struct Address {
    pub kind: AddressKind,
    pub id: Bytes32,
}

/// One party's share of one token: a merchant's earnings, or a subscriber's exposure.
#[derive(Clone, Copy, Debug, PartialEq, Eq, Structural)]
pub struct Bucket {
    pub holder: Address,
    pub token: Address,
}

/// What the ledger tells the vault about the invocation that is running.
pub struct Call {
    /// Close time of the current ledger, in seconds.
    pub now: u64,
    /// The vault's own address, which holds its tokens.
    pub contract: Address,
    /// Addresses whose authorization for this invocation the ledger has confirmed.
    pub signers: Vec<Address>,
}

impl Call {
    /// The ledger has confirmed that `who` authorized this invocation.
    pub open spec fn signed_by(&self, who: Address) -> bool {
        self.signers@.contains(who)
    }
}

/// Detailed error information for insufficient balance scenarios.
#[derive(Clone, Copy, Debug, PartialEq, Eq)]
pub struct InsufficientBalanceError {
    /// The current available prepaid balance in the subscription vault.
    pub available: i128,
    /// The required amount to complete the charge.
    pub required: i128,
}

impl InsufficientBalanceError {
    pub fn new(available: i128, required: i128) -> (detail: Self)
        ensures
            detail.available == available,
            detail.required == required,
    {
        Self { available, required }
    }

    /// How much is missing.
    pub fn shortfall(&self) -> (missing: i128)
        requires
            i128::MIN <= self.required - self.available <= i128::MAX,
        ensures
            missing == self.required - self.available,
    {
        self.required - self.available
    }
}

/// Why an operation was refused.
#[derive(Clone, Copy, Debug, PartialEq, Eq, Structural)]
pub enum Error {
    /// Caller does not have the required authorization.
    Unauthorized,
    /// Caller is authorized but does not have permission for this specific action.
    Forbidden,
    /// The requested resource was not found in storage.
    NotFound,
    /// The requested state transition is not allowed by the state machine.
    InvalidStatusTransition,
    /// The top-up amount is below the minimum required threshold.
    BelowMinimumTopup,
    /// Charge interval has not elapsed since the last payment.
    IntervalNotElapsed,
    /// Subscription is not in an active state for this operation.
    NotActive,
    /// Insufficient balance in the subscription vault.
    InsufficientBalance,
    /// Usage charging is not enabled for this subscription.
    UsageNotEnabled,
    /// Insufficient prepaid balance for the requested usage charge.
    InsufficientPrepaidBalance,
    /// The provided amount is zero or negative. Merchants know this refusal of a
    /// withdrawal as code 405.
    InvalidAmount,
    /// Charge already processed for this billing period, or usage reference already
    /// processed (replay protection).
    Replay,
    /// Invalid recovery amount provided.
    InvalidRecoveryAmount,
    /// Emergency stop is active: critical operations are blocked.
    EmergencyStopActive,
    /// Operation would result in a negative balance or underflow.
    Underflow,
    /// Recovery operation not allowed for this reason or context.
    RecoveryNotAllowed,
    /// Combined balance would overflow i128.
    Overflow,
    /// The contract or requested configuration is not initialized.
    NotInitialized,
    /// The requested export limit exceeds the maximum allowed.
    InvalidExportLimit,
    /// Invalid input provided to a function.
    InvalidInput,
    /// Reentrancy detected: function called recursively during execution.
    Reentrancy,
    /// Lifetime charge cap has been reached; no further charges are allowed.
    LifetimeCapReached,
    /// Contract is already initialized; init may only be called once.
    AlreadyInitialized,
    /// The contract has allocated the maximum number of subscriptions.
    SubscriptionLimitReached,
    /// Oracle pricing is enabled without an oracle address.
    OracleNotConfigured,
    /// The oracle has not published a quote.
    OraclePriceUnavailable,
    /// The oracle's quote is older than the configured maximum age.
    OraclePriceStale,
    /// The oracle's quote is not a usable price.
    OraclePriceInvalid,
    /// The subscription already holds the maximum number of metadata keys.
    MetadataKeyLimitReached,
    /// The metadata key is empty or longer than allowed.
    MetadataKeyInvalid,
    /// The metadata value is longer than allowed.
    MetadataValueTooLong,
    /// The merchant has paused all of its subscriptions.
    MerchantPaused,
    /// The subscriber already holds as many active subscriptions to the plan as it allows.
    MaxConcurrentSubscriptionsReached,
    /// The subscriber's exposure would exceed the configured credit limit.
    CreditLimitExceeded,
    /// Too many usage charges in the current rate window.
    RateLimitExceeded,
    /// The usage cap of the billing period would be exceeded.
    UsageCapExceeded,
    /// The usage charge follows the previous one too closely.
    BurstLimitExceeded,
}

impl Error {
    /// The numeric code under which each error is reported.
    pub open spec fn code(self) -> u32 {
        match self {
            Error::InvalidStatusTransition => 400,
            Error::Unauthorized => 401,
            Error::BelowMinimumTopup => 402,
            Error::Forbidden => 403,
            Error::NotFound => 404,
            Error::InvalidAmount => 405,
            Error::SubscriptionLimitReached => 429,
            Error::IntervalNotElapsed => 1001,
            Error::NotActive => 1002,
            Error::InsufficientBalance => 1003,
            Error::UsageNotEnabled => 1004,
            Error::InsufficientPrepaidBalance => 1005,
            Error::Replay => 1007,
            Error::InvalidRecoveryAmount => 1008,
            Error::EmergencyStopActive => 1009,
            Error::Underflow => 1010,
            Error::RecoveryNotAllowed => 1011,
            Error::Overflow => 1012,
            Error::NotInitialized => 1013,
            Error::InvalidExportLimit => 1014,
            Error::InvalidInput => 1015,
            Error::Reentrancy => 1016,
            Error::LifetimeCapReached => 1017,
            Error::AlreadyInitialized => 1018,
            Error::OracleNotConfigured => 1019,
            Error::OraclePriceUnavailable => 1020,
            Error::OraclePriceStale => 1021,
            Error::OraclePriceInvalid => 1022,
            Error::MetadataKeyLimitReached => 1023,
            Error::MetadataKeyInvalid => 1024,
            Error::MetadataValueTooLong => 1025,
            Error::MerchantPaused => 1026,
            Error::MaxConcurrentSubscriptionsReached => 1027,
            Error::CreditLimitExceeded => 1028,
            Error::RateLimitExceeded => 1033,
            Error::UsageCapExceeded => 1034,
            Error::BurstLimitExceeded => 1035,
        }
    }

    /// Returns the numeric code for this error (for batch result reporting).
    pub fn to_code(self) -> (code: u32)
        ensures
            code == self.code(),
    {
        match self {
            Error::NotFound => 404,
            Error::Unauthorized => 401,
            Error::Forbidden => 403,
            Error::IntervalNotElapsed => 1001,
            Error::NotActive => 1002,
            Error::InvalidStatusTransition => 400,
            Error::BelowMinimumTopup => 402,
            Error::Overflow => 1012,
            Error::Underflow => 1010,
            Error::InsufficientBalance => 1003,
            Error::InvalidAmount => 405,
            Error::UsageNotEnabled => 1004,
            Error::InsufficientPrepaidBalance => 1005,
            Error::Replay => 1007,
            Error::InvalidRecoveryAmount => 1008,
            Error::EmergencyStopActive => 1009,
            Error::RecoveryNotAllowed => 1011,
            Error::InvalidInput => 1015,
            Error::NotInitialized => 1013,
            Error::InvalidExportLimit => 1014,
            Error::Reentrancy => 1016,
            Error::LifetimeCapReached => 1017,
            Error::AlreadyInitialized => 1018,
            Error::SubscriptionLimitReached => 429,
            Error::OracleNotConfigured => 1019,
            Error::OraclePriceUnavailable => 1020,
            Error::OraclePriceStale => 1021,
            Error::OraclePriceInvalid => 1022,
            Error::MetadataKeyLimitReached => 1023,
            Error::MetadataKeyInvalid => 1024,
            Error::MetadataValueTooLong => 1025,
            Error::MerchantPaused => 1026,
            Error::MaxConcurrentSubscriptionsReached => 1027,
            Error::CreditLimitExceeded => 1028,
            Error::RateLimitExceeded => 1033,
            Error::UsageCapExceeded => 1034,
            Error::BurstLimitExceeded => 1035,
        }
    }
}

/// No two errors share a code, so a reported code identifies the error.
pub proof fn error_codes_are_distinct(a: Error, b: Error)
    ensures
        a.code() == b.code() ==> a == b,
{
}

/// Result of charging one subscription in a batch.
#[derive(Clone, Copy, Debug, PartialEq, Eq)]
pub struct BatchChargeResult {
    /// True if the charge succeeded.
    pub success: bool,
    /// If success is false, the error code; otherwise 0.
    pub error_code: u32,
}

/// Result of a batch merchant withdrawal operation.
#[derive(Clone, Copy, Debug, PartialEq, Eq)]
pub struct BatchWithdrawResult {
    pub success: bool,
    pub error_code: u32,
}

/// How an interval charge that was carried through ended.
#[derive(Clone, Copy, Debug, PartialEq, Eq, Structural)]
pub enum ChargeExecutionResult {
    /// The interval was paid, or had been paid before under the same idempotency key.
    Charged,
    /// The prepaid balance does not cover the interval; nothing was debited.
    InsufficientBalance,
    /// The lifetime cap leaves no room for the interval; the subscription was cancelled.
    LifetimeCapReached,
}

/// Represents the lifecycle state of a subscription.
#[derive(Clone, Copy, Debug, PartialEq, Eq, Structural)]
pub enum SubscriptionStatus {
    /// Subscription is active and ready for charging.
    Active,
    /// Subscription is temporarily paused, no charges processed.
    Paused,
    /// Subscription is permanently cancelled (terminal state).
    Cancelled,
    /// Subscription failed due to insufficient balance for charging.
    InsufficientBalance,
    /// Subscription is in grace period after a missed charge.
    GracePeriod,
}

/// Stores subscription details and current state.
#[derive(Clone, Copy, Debug, PartialEq, Eq)]
pub struct Subscription {
    pub subscriber: Address,
    pub merchant: Address,
    /// Settlement token of this subscription.
    pub token: Address,
    /// Recurring charge amount per billing interval (in token base units).
    pub amount: i128,
    /// Billing interval in seconds.
    pub interval_seconds: u64,
    pub last_payment_timestamp: u64,
    /// Current lifecycle state. Modified only through state machine transitions.
    pub status: SubscriptionStatus,
    /// Subscriber's prepaid balance held in escrow by the contract.
    pub prepaid_balance: i128,
    pub usage_enabled: bool,
    /// Optional maximum total amount that may ever be charged. `None` means no cap.
    pub lifetime_cap: Option<i128>,
    /// Cumulative total of all amounts successfully charged so far.
    pub lifetime_charged: i128,
}

/// A read-only snapshot of the contract's configuration and current state.
#[derive(Clone, Copy, Debug, PartialEq, Eq)]
pub struct ContractSnapshot {
    pub admin: Address,
    pub token: Address,
    pub min_topup: i128,
    pub next_id: u32,
    pub storage_version: u32,
    pub timestamp: u64,
}

/// A summary of a subscription's current state, intended for migration or reporting.
#[derive(Clone, Copy, Debug, PartialEq, Eq)]
pub struct SubscriptionSummary {
    pub subscription_id: u32,
    pub subscriber: Address,
    pub merchant: Address,
    pub token: Address,
    pub amount: i128,
    pub interval_seconds: u64,
    pub last_payment_timestamp: u64,
    pub status: SubscriptionStatus,
    pub prepaid_balance: i128,
    pub usage_enabled: bool,
    pub lifetime_cap: Option<i128>,
    pub lifetime_charged: i128,
}

/// Defines a reusable subscription plan template.
///
/// A template never changes once created: an update creates a new template of the same
/// `template_key` with the next `version`.
#[derive(Clone, Copy, Debug, PartialEq, Eq)]
pub struct PlanTemplate {
    /// Merchant who owns this plan template.
    pub merchant: Address,
    /// Settlement token of subscriptions created from this template.
    pub token: Address,
    /// Recurring charge amount per interval (token base units).
    pub amount: i128,
    /// Billing interval in seconds.
    pub interval_seconds: u64,
    /// Whether usage-based charging is enabled.
    pub usage_enabled: bool,
    /// Optional lifetime cap applied to subscriptions created from this template.
    pub lifetime_cap: Option<i128>,
    /// Identifier shared by all versions of the same plan: the first version's plan id.
    pub template_key: u32,
    /// Version number within the template group, starting at 1.
    pub version: u32,
}

/// Result of computing next charge information for a subscription.
#[derive(Clone, Copy, Debug, PartialEq, Eq)]
pub struct NextChargeInfo {
    /// Estimated timestamp for the next charge attempt.
    pub next_charge_timestamp: u64,
    /// Whether a charge is actually expected based on the subscription status.
    pub is_charge_expected: bool,
}

/// View of a subscription's lifetime cap status.
#[derive(Clone, Copy, Debug, PartialEq, Eq)]
pub struct CapInfo {
    /// The configured lifetime cap, or `None` if no cap is set.
    pub lifetime_cap: Option<i128>,
    /// Total amount charged over the subscription's lifetime so far.
    pub lifetime_charged: i128,
    /// Remaining chargeable amount before cap is hit. `None` when no cap is configured.
    pub remaining_cap: Option<i128>,
    /// True when the cap has been reached and no further charges are allowed.
    pub cap_reached: bool,
}

/// Canonical charge category used for billing statement history.
#[derive(Clone, Copy, Debug, PartialEq, Eq, Structural)]
pub enum BillingChargeKind {
    Interval,
    Usage,
    OneOff,
}

/// Immutable billing statement row for a subscription charge action.
#[derive(Clone, Copy, Debug, PartialEq, Eq)]
pub struct BillingStatement {
    pub subscription_id: u32,
    /// Monotonic per-subscription sequence number (starts at 0).
    pub sequence: u32,
    /// Timestamp the charge operation was processed.
    pub charged_at: u64,
    /// Charge period start, in ledger timestamp seconds.
    pub period_start: u64,
    /// Charge period end, in ledger timestamp seconds.
    pub period_end: u64,
    /// Debited amount in token base units.
    pub amount: i128,
    pub merchant: Address,
    pub kind: BillingChargeKind,
}

/// Paginated page of billing statements.
#[derive(Debug, PartialEq, Eq)]
pub struct BillingStatementsPage {
    pub statements: Vec<BillingStatement>,
    /// Cursor for the next page. `None` means no more rows.
    pub next_cursor: Option<u32>,
    /// Total statements recorded for the subscription.
    pub total: u32,
}

/// Retention policy for billing statements.
#[derive(Clone, Copy, Debug, PartialEq, Eq)]
pub struct BillingRetentionConfig {
    /// Number of most-recent detailed rows to keep per subscription.
    pub keep_recent: u32,
}

/// Aggregated compacted history for pruned rows.
#[derive(Clone, Copy, Debug, PartialEq, Eq)]
pub struct BillingStatementAggregate {
    pub pruned_count: u32,
    pub total_amount: i128,
    pub oldest_period_start: Option<u64>,
    pub newest_period_end: Option<u64>,
}

/// Result of a compaction run.
#[derive(Clone, Copy, Debug, PartialEq, Eq)]
pub struct BillingCompactionSummary {
    pub subscription_id: u32,
    pub pruned_count: u32,
    pub kept_count: u32,
    pub total_pruned_amount: i128,
}

/// A token the vault settles in, with its number of decimals.
#[derive(Clone, Copy, Debug, PartialEq, Eq)]
pub struct AcceptedToken {
    pub token: Address,
    pub decimals: u32,
}

/// Settings of the optional price oracle.
#[derive(Clone, Copy, Debug, PartialEq, Eq)]
pub struct OracleConfig {
    pub enabled: bool,
    pub oracle: Option<Address>,
    pub max_age_seconds: u64,
}

/// What the price oracle reports.
#[derive(Clone, Copy, Debug, PartialEq, Eq)]
pub struct OraclePrice {
    /// Quote units per one token.
    pub price: i128,
    /// Quote publication time.
    pub timestamp: u64,
}

/// Rate limits and caps on the usage charges of one subscription.
#[derive(Clone, Copy, Debug, PartialEq, Eq)]
pub struct UsageLimits {
    /// Maximum allowed usage charges within the rate window.
    pub rate_limit_max_calls: Option<u32>,
    /// Duration of the rate limit window in seconds.
    pub rate_window_secs: u64,
    /// Minimum required time (in seconds) between any two consecutive usage charges.
    pub burst_min_interval_secs: u64,
    /// Maximum usage amount allowed per billing period.
    pub usage_cap_units: Option<i128>,
}

/// Bookkeeping of the usage charges of one subscription.
#[derive(Clone, Copy, Debug, PartialEq, Eq)]
pub struct UsageState {
    pub last_usage_timestamp: u64,
    pub window_start_timestamp: u64,
    pub window_call_count: u32,
    /// Amount charged for usage in the billing period `period_index`.
    pub current_period_usage_units: i128,
    pub period_index: u64,
}

/// What a merchant has earned, by kind of charge.
#[derive(Clone, Copy, Debug, PartialEq, Eq)]
pub struct AccruedEarnings {
    pub interval: i128,
    pub usage: i128,
    pub one_off: i128,
}

/// A merchant's earnings in one token.
#[derive(Clone, Copy, Debug, PartialEq, Eq)]
pub struct TokenEarnings {
    pub accruals: AccruedEarnings,
    pub withdrawals: i128,
    pub refunds: i128,
}

/// Totals of a merchant's earnings in one token, for external verification.
#[derive(Clone, Copy, Debug, PartialEq, Eq)]
pub struct ReconciliationSnapshot {
    pub token: Address,
    pub total_accruals: i128,
    pub total_withdrawals: i128,
    pub total_refunds: i128,
    pub computed_balance: i128,
}

/// Global configuration of a merchant. `B` is the type of text.
#[derive(Debug, PartialEq, Eq)]
pub struct MerchantConfig<B> {
    pub fee_address: Option<Address>,
    pub redirect_url: B,
    pub is_paused: bool,
}

/// Why and by whom a subscriber was put on the blocklist. `B` is the type of text.
#[derive(Debug, PartialEq, Eq)]
pub struct BlocklistEntry<B> {
    pub subscriber: Address,
    pub added_by: Address,
    pub added_at: u64,
    pub reason: Option<B>,
}

/// One key of a subscription's metadata and its value. `B` is the type of text.
#[derive(Debug, PartialEq, Eq)]
pub struct MetadataEntry<B> {
    pub subscription_id: u32,
    pub key: B,
    pub value: B,
}

/// The bytes of an optional text.
pub open spec fn text_view(text: Option<Vec<u8>>) -> Option<Seq<u8>> {
    match text {
        Some(t) => Some(t@),
        None => None,
    }
}

impl View for MerchantConfig<Vec<u8>> {
    type V = MerchantConfig<Seq<u8>>;

    open spec fn view(&self) -> MerchantConfig<Seq<u8>> {
        MerchantConfig {
            fee_address: self.fee_address,
            redirect_url: self.redirect_url@,
            is_paused: self.is_paused,
        }
    }
}

impl View for BlocklistEntry<Vec<u8>> {
    type V = BlocklistEntry<Seq<u8>>;

    open spec fn view(&self) -> BlocklistEntry<Seq<u8>> {
        BlocklistEntry {
            subscriber: self.subscriber,
            added_by: self.added_by,
            added_at: self.added_at,
            reason: text_view(self.reason),
        }
    }
}

impl View for MetadataEntry<Vec<u8>> {
    type V = MetadataEntry<Seq<u8>>;

    open spec fn view(&self) -> MetadataEntry<Seq<u8>> {
        MetadataEntry {
            subscription_id: self.subscription_id,
            key: self.key@,
            value: self.value@,
        }
    }
}

/// Represents the reason for stranded funds that can be recovered by admin.
#[derive(Clone, Copy, Debug, PartialEq, Eq, Structural)]
pub enum RecoveryReason {
    /// Funds sent to contract address by mistake.
    AccidentalTransfer,
    /// Funds from deprecated contract flows or logic errors.
    DeprecatedFlow,
    /// Funds from cancelled subscriptions with unreachable addresses.
    UnreachableSubscriber,
}

} // verus!
