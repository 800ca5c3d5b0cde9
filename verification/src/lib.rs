//! Prepaid subscription vault for recurring billing.
//!
//! Subscribers deposit tokens into the vault, merchants charge subscriptions by interval, by
//! usage or once, and withdraw what they earned. [`SubscriptionVault`] is the whole state;
//! its methods are the entrypoints. The vault never calls out: an operation changes the
//! state and leaves events and token transfers in its outbox for the ledger to carry out.
//!
//! Contracts are stated over [`vault::VaultState`], the mathematical view of the vault. What
//! each operation promises of the fields that it reads and changes stands in [`charge_laws`],
//! [`price_laws`], [`lifecycle_laws`], [`plan_laws`], [`merchant_laws`], [`admin_laws`] and
//! [`query_laws`]. What holds across operations stands in [`laws`], [`funds`], [`soundness`],
//! [`accounting`], [`statement_laws`], [`course_laws`] and [`runs`].
pub mod accounting;
pub mod admin;
pub mod admin_laws;
pub mod blocklist;
pub mod charge_core;
pub mod charge_laws;
pub mod contract;
pub mod course_laws;
pub mod events;
pub mod funds;
pub mod laws;
pub mod lifecycle_laws;
pub mod merchant;
pub mod merchant_laws;
pub mod metadata;
pub mod migration;
pub mod operation;
pub mod oracle;
pub mod plan;
pub mod plan_laws;
pub mod price_laws;
pub mod queries;
pub mod query_laws;
pub mod reentrancy;
pub mod runs;
pub mod safe_math;
pub mod soundness;
pub mod state_machine;
pub mod statement_laws;
pub mod statements;
pub mod subscription;
pub mod tables;
pub mod types;
pub mod vault;

pub use queries::compute_next_charge_info;
pub use state_machine::{can_transition, get_allowed_transitions, validate_status_transition};
pub use subscription::MAX_SUBSCRIPTION_ID;
pub use types::{
    AcceptedToken, Address, BatchChargeResult, BillingChargeKind, BillingCompactionSummary,
    BillingRetentionConfig, BillingStatement, BillingStatementAggregate,
    BillingStatementsPage, BlocklistEntry, Call, CapInfo, ChargeExecutionResult,
    ContractSnapshot, Error, MerchantConfig, NextChargeInfo, OracleConfig, OraclePrice,
    PlanTemplate, ReconciliationSnapshot, RecoveryReason, Subscription, SubscriptionStatus,
    SubscriptionSummary, TokenEarnings, UsageLimits, UsageState,
};
pub use vault::SubscriptionVault;
