//! The state of the vault.
use crate::events::{Effect, Outbox};
use crate::merchant::{no_merchants, MerchantLedger, Merchants};
use crate::statements::{no_statements, StatementBook, Statements};
use crate::tables::{viewed, viewed_items, IdIndex, IdMap, Table};
use crate::types::{
    AcceptedToken, Address, BlocklistEntry, Bucket, Bytes32, MetadataEntry, OracleConfig,
    PlanTemplate, Subscription, UsageLimits, UsageState,
};
use vstd::prelude::*;

verus! {

/// Settings of the vault as a whole. What the initialization sets is `None` before it.
#[derive(Clone, Copy, Debug, PartialEq, Eq)]
pub struct Config {
    /// Default settlement token.
    pub token: Option<Address>,
    pub admin: Option<Address>,
    /// Smallest amount that may be deposited.
    pub min_topup: Option<i128>,
    /// Seconds after a missed charge during which the subscription stays in grace.
    pub grace_period: Option<u64>,
    /// Whether critical operations are blocked.
    pub emergency_stop: bool,
    pub oracle: OracleConfig,
}

/// Replay protection of interval charges, as contracts speak of it.
#[verifier::ext_equal]
pub struct ChargeMarks {
    /// Last charged billing period, by subscription id.
    pub period: Map<u32, u64>,
    /// Last processed idempotency key, by subscription id.
    pub key: Map<u32, Bytes32>,
}

/// Limits and bookkeeping of usage charges, as contracts speak of them.
#[verifier::ext_equal]
pub struct Usage {
    pub limits: Map<u32, UsageLimits>,
    pub state: Map<u32, UsageState>,
    /// Reference of the last processed usage charge, by subscription id.
    pub reference: Map<u32, Seq<u8>>,
}

/// The state of the vault, as contracts speak of it.
#[verifier::ext_equal]
pub struct VaultState {
    pub config: Config,
    /// Tokens that the vault settles in.
    pub tokens: Seq<AcceptedToken>,
    /// Number of subscriptions ever created, which is the next one's id.
    pub next_id: u32,
    pub subscriptions: Map<u32, Subscription>,
    /// Subscription ids by merchant, in the order of creation.
    pub by_merchant: Seq<(Address, u32)>,
    /// Subscription ids by settlement token, in the order of creation.
    pub by_token: Seq<(Address, u32)>,
    /// Number of plan templates ever created, which is the next one's id.
    pub next_plan_id: u32,
    pub plans: Map<u32, PlanTemplate>,
    /// The plan template that a subscription runs on, by subscription id.
    pub plan_of: Map<u32, u32>,
    /// How many active subscriptions one subscriber may hold, by plan template id.
    pub plan_limits: Map<u32, u32>,
    /// Largest exposure allowed, by subscriber and token.
    pub credit_limits: Map<Bucket, i128>,
    pub merchants: Merchants,
    pub marks: ChargeMarks,
    pub usage: Usage,
    pub statements: Statements,
    /// Metadata of all subscriptions, in the order in which keys were added.
    pub metadata: Seq<MetadataEntry<Seq<u8>>>,
    pub blocklist: Map<Address, BlocklistEntry<Seq<u8>>>,
    /// What the ledger was asked to do, oldest first.
    pub outbox: Seq<Effect<Seq<u8>>>,
}

/// Replay protection of interval charges.
pub struct ChargeMarkBook {
    pub period: IdMap<u64>,
    pub key: IdMap<Bytes32>,
}

impl View for ChargeMarkBook {
    type V = ChargeMarks;

    open spec fn view(&self) -> ChargeMarks {
        ChargeMarks { period: self.period@, key: self.key@ }
    }
}

/// Limits and bookkeeping of usage charges.
pub struct UsageBook {
    pub limits: IdMap<UsageLimits>,
    pub state: IdMap<UsageState>,
    pub reference: Table<u32, Vec<u8>>,
}

impl View for UsageBook {
    type V = Usage;

    open spec fn view(&self) -> Usage {
        Usage {
            limits: self.limits@,
            state: self.state@,
            reference: viewed(self.reference@),
        }
    }
}

/// A prepaid subscription vault.
pub struct SubscriptionVault {
    pub config: Config,
    pub tokens: Vec<AcceptedToken>,
    pub next_id: u32,
    pub subscriptions: IdMap<Subscription>,
    pub by_merchant: IdIndex,
    pub by_token: IdIndex,
    pub next_plan_id: u32,
    pub plans: IdMap<PlanTemplate>,
    pub plan_of: IdMap<u32>,
    pub plan_limits: IdMap<u32>,
    pub credit_limits: Table<Bucket, i128>,
    pub merchants: MerchantLedger,
    pub marks: ChargeMarkBook,
    pub usage: UsageBook,
    pub statements: StatementBook,
    pub metadata: Vec<MetadataEntry<Vec<u8>>>,
    pub blocklist: Table<Address, BlocklistEntry<Vec<u8>>>,
    pub outbox: Outbox,
}

impl View for SubscriptionVault {
    type V = VaultState;

    open spec fn view(&self) -> VaultState {
        VaultState {
            config: self.config,
            tokens: self.tokens@,
            next_id: self.next_id,
            subscriptions: self.subscriptions@,
            by_merchant: self.by_merchant@,
            by_token: self.by_token@,
            next_plan_id: self.next_plan_id,
            plans: self.plans@,
            plan_of: self.plan_of@,
            plan_limits: self.plan_limits@,
            credit_limits: self.credit_limits@,
            merchants: self.merchants@,
            marks: self.marks@,
            usage: self.usage@,
            statements: self.statements@,
            metadata: viewed_items(self.metadata@),
            blocklist: viewed(self.blocklist@),
            outbox: self.outbox@,
        }
    }
}

/// The vault before its initialization.
pub open spec fn fresh() -> VaultState {
    VaultState {
        config: Config {
            token: None,
            admin: None,
            min_topup: None,
            grace_period: None,
            emergency_stop: false,
            oracle: OracleConfig { enabled: false, oracle: None, max_age_seconds: 0 },
        },
        tokens: Seq::empty(),
        next_id: 0,
        subscriptions: Map::empty(),
        by_merchant: Seq::empty(),
        by_token: Seq::empty(),
        next_plan_id: 0,
        plans: Map::empty(),
        plan_of: Map::empty(),
        plan_limits: Map::empty(),
        credit_limits: Map::empty(),
        merchants: no_merchants(),
        marks: ChargeMarks { period: Map::empty(), key: Map::empty() },
        usage: Usage { limits: Map::empty(), state: Map::empty(), reference: Map::empty() },
        statements: no_statements(),
        metadata: Seq::empty(),
        blocklist: Map::empty(),
        outbox: Seq::empty(),
    }
}

impl SubscriptionVault {
    /// A vault before its initialization.
    pub fn new() -> (vault: SubscriptionVault)
        ensures
            vault@ == fresh(),
    {
        let vault = SubscriptionVault {
            config: Config {
                token: None,
                admin: None,
                min_topup: None,
                grace_period: None,
                emergency_stop: false,
                oracle: OracleConfig { enabled: false, oracle: None, max_age_seconds: 0 },
            },
            tokens: Vec::new(),
            next_id: 0,
            subscriptions: IdMap::new(),
            by_merchant: IdIndex::new(),
            by_token: IdIndex::new(),
            next_plan_id: 0,
            plans: IdMap::new(),
            plan_of: IdMap::new(),
            plan_limits: IdMap::new(),
            credit_limits: Table::new(),
            merchants: MerchantLedger::new(),
            marks: ChargeMarkBook { period: IdMap::new(), key: IdMap::new() },
            usage: UsageBook {
                limits: IdMap::new(),
                state: IdMap::new(),
                reference: Table::new(),
            },
            statements: StatementBook::new(),
            metadata: Vec::new(),
            blocklist: Table::new(),
            outbox: Outbox::new(),
        };
        assert(vault@.usage =~= fresh().usage);
        assert(vault@ =~= fresh());
        vault
    }
}

} // verus!
