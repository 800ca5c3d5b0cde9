//! Scenarios on the vault's entrypoints.
use std::cell::RefCell;
use std::rc::Rc;
use subscription_vault::charge_core::charge_one;
use subscription_vault::events::{Effect, Event};
use subscription_vault::queries::{compute_next_charge_info, SubscriptionsPage};
use subscription_vault::subscription::MAX_SUBSCRIPTION_ID;
use subscription_vault::types::{
    Address, AddressKind, BatchChargeResult, BillingCompactionSummary,
    BillingStatementAggregate, BillingStatementsPage, Bytes32, Call, CapInfo,
    ChargeExecutionResult, ContractSnapshot, Error, MerchantConfig, NextChargeInfo,
    OraclePrice, PlanTemplate, RecoveryReason, Subscription, SubscriptionStatus,
    SubscriptionSummary,
};
use subscription_vault::vault::SubscriptionVault;

// -- constants ----------------------------------------------------------------
const T0: u64 = 1_000;
const USAGE_T0: u64 = 1700000000;
const INTERVAL: u64 = 30 * 24 * 60 * 60; // 30 days
const AMOUNT: i128 = 10_000_000; // 10 USDC (6 decimals)
const PREPAID: i128 = 50_000_000; // 50 USDC
const GRACE_PERIOD: u64 = 7 * 24 * 60 * 60;

// -- A ledger around the vault ------------------------------------------------

/// Clock, token balances and the vault under test. Every caller counts as having signed.
struct Ledger {
    now: u64,
    issued: u128,
    balances: Vec<(Address, Address, i128)>,
    vault: SubscriptionVault,
    quote: OraclePrice,
    events: Vec<Event<Vec<u8>>>,
}

#[derive(Clone)]
struct Env(Rc<RefCell<Ledger>>);

impl Env {
    fn new() -> Env {
        Env(Rc::new(RefCell::new(Ledger {
            now: 0,
            issued: 0,
            balances: Vec::new(),
            vault: SubscriptionVault::new(),
            quote: OraclePrice { price: 0, timestamp: 0 },
            events: Vec::new(),
        })))
    }

    /// A fresh address.
    fn generate(&self) -> Address {
        let mut ledger = self.0.borrow_mut();
        ledger.issued += 1;
        Address {
            kind: AddressKind::Account,
            id: Bytes32 { hi: 0, lo: ledger.issued },
        }
    }

    fn register(&self) -> Client {
        Client { env: self.clone(), address: self.generate() }
    }

    fn set_time(&self, now: u64) {
        self.0.borrow_mut().now = now;
    }

    fn set_price(&self, price: i128, timestamp: u64) {
        self.0.borrow_mut().quote = OraclePrice { price, timestamp };
    }

    fn token(&self, token: Address) -> Token {
        Token { env: self.clone(), token }
    }
}

/// One token's balances.
struct Token {
    env: Env,
    token: Address,
}

impl Token {
    fn balance(&self, who: &Address) -> i128 {
        let ledger = self.env.0.borrow();
        let mut total = 0;
        for (token, holder, amount) in ledger.balances.iter() {
            if *token == self.token && holder == who {
                total += amount;
            }
        }
        total
    }

    fn mint(&self, who: &Address, amount: &i128) {
        self.env.0.borrow_mut().balances.push((self.token, *who, *amount));
    }
}

/// The value, or the panic with which the ledger reports a contract error.
fn expect<T>(result: Result<T, Error>) -> T {
    match result {
        Ok(value) => value,
        Err(e) => panic!("Error(Contract, #{})", e.to_code()),
    }
}

fn text(s: &str) -> Vec<u8> {
    s.as_bytes().to_vec()
}

/// Calls the vault's entrypoints and carries out what the vault asks for.
struct Client {
    env: Env,
    address: Address,
}

impl Client {
    fn run<T>(&self, who: &Address, f: impl FnOnce(&mut SubscriptionVault, &Call) -> T) -> T {
        let mut guard = self.env.0.borrow_mut();
        let ledger = &mut *guard;
        let call = Call { now: ledger.now, contract: self.address, signers: vec![*who] };
        let value = f(&mut ledger.vault, &call);
        for effect in ledger.vault.outbox.effects.drain(..) {
            match effect {
                Effect::Transfer(t) => {
                    let mut held = 0;
                    for (token, holder, amount) in ledger.balances.iter() {
                        if *token == t.token && *holder == t.from {
                            held += amount;
                        }
                    }
                    assert!(held >= t.amount, "transfer exceeds the sender's balance");
                    ledger.balances.push((t.token, t.from, -t.amount));
                    ledger.balances.push((t.token, t.to, t.amount));
                }
                Effect::Publish(event) => ledger.events.push(event),
            }
        }
        value
    }

    fn read<T>(&self, f: impl FnOnce(&SubscriptionVault) -> T) -> T {
        f(&self.env.0.borrow().vault)
    }

    /// Overwrites a stored subscription.
    fn patch(&self, id: u32, sub: Subscription) {
        self.env.0.borrow_mut().vault.subscriptions.set(id, sub);
    }

    fn custody(&self, token: &Address) -> i128 {
        self.env.token(*token).balance(&self.address)
    }

    fn quote(&self) -> OraclePrice {
        self.env.0.borrow().quote
    }

    fn init(
        &self,
        token: &Address,
        decimals: &u32,
        admin: &Address,
        min_topup: &i128,
        grace: &u64,
    ) {
        expect(self.run(admin, |v, _| v.init(*token, *decimals, *admin, *min_topup, *grace)))
    }

    fn get_admin(&self) -> Address {
        expect(self.read(|v| v.get_admin()))
    }

    fn rotate_admin(&self, admin: &Address, new_admin: &Address) {
        expect(self.run(admin, |v, c| v.rotate_admin(c, *admin, *new_admin)))
    }

    fn recover_stranded_funds(
        &self,
        admin: &Address,
        recipient: &Address,
        amount: &i128,
        reason: &RecoveryReason,
    ) {
        expect(self.run(admin, |v, c| {
            v.recover_stranded_funds(c, *admin, *recipient, *amount, *reason)
        }))
    }

    fn enable_emergency_stop(&self, admin: &Address) {
        expect(self.run(admin, |v, c| v.enable_emergency_stop(c, *admin)))
    }

    fn disable_emergency_stop(&self, admin: &Address) {
        expect(self.run(admin, |v, c| v.disable_emergency_stop(c, *admin)))
    }

    fn export_contract_snapshot(&self, admin: &Address) -> ContractSnapshot {
        expect(self.run(admin, |v, c| v.export_contract_snapshot(c, *admin)))
    }

    fn export_subscription_summaries(
        &self,
        admin: &Address,
        start: &u32,
        limit: &u32,
    ) -> Vec<SubscriptionSummary> {
        expect(self.run(admin, |v, c| v.export_subscription_summaries(c, *admin, *start, *limit)))
    }

    fn try_create_subscription(
        &self,
        subscriber: &Address,
        merchant: &Address,
        amount: &i128,
        interval: &u64,
        usage: &bool,
        cap: &Option<i128>,
    ) -> Result<u32, Error> {
        self.run(subscriber, |v, c| {
            v.create_subscription(c, *subscriber, *merchant, *amount, *interval, *usage, *cap)
        })
    }

    fn create_subscription(
        &self,
        subscriber: &Address,
        merchant: &Address,
        amount: &i128,
        interval: &u64,
        usage: &bool,
        cap: &Option<i128>,
    ) -> u32 {
        expect(self.try_create_subscription(subscriber, merchant, amount, interval, usage, cap))
    }

    fn try_create_subscription_with_token(
        &self,
        subscriber: &Address,
        merchant: &Address,
        token: &Address,
        amount: &i128,
        interval: &u64,
        usage: &bool,
        cap: &Option<i128>,
    ) -> Result<u32, Error> {
        self.run(subscriber, |v, c| {
            v.create_subscription_with_token(
                c,
                *subscriber,
                *merchant,
                *token,
                *amount,
                *interval,
                *usage,
                *cap,
            )
        })
    }

    fn create_subscription_with_token(
        &self,
        subscriber: &Address,
        merchant: &Address,
        token: &Address,
        amount: &i128,
        interval: &u64,
        usage: &bool,
        cap: &Option<i128>,
    ) -> u32 {
        expect(self.try_create_subscription_with_token(
            subscriber,
            merchant,
            token,
            amount,
            interval,
            usage,
            cap,
        ))
    }

    fn try_deposit_funds(
        &self,
        id: &u32,
        subscriber: &Address,
        amount: &i128,
    ) -> Result<(), Error> {
        self.run(subscriber, |v, c| v.deposit_funds(c, *id, *subscriber, *amount))
    }

    fn deposit_funds(&self, id: &u32, subscriber: &Address, amount: &i128) {
        expect(self.try_deposit_funds(id, subscriber, amount))
    }

    fn create_plan_template(
        &self,
        merchant: &Address,
        amount: &i128,
        interval: &u64,
        usage: &bool,
        cap: &Option<i128>,
    ) -> u32 {
        expect(self.run(merchant, |v, c| {
            v.create_plan_template(c, *merchant, *amount, *interval, *usage, *cap)
        }))
    }

    fn try_create_subscription_from_plan(
        &self,
        subscriber: &Address,
        plan: &u32,
    ) -> Result<u32, Error> {
        self.run(subscriber, |v, c| v.create_subscription_from_plan(c, *subscriber, *plan))
    }

    fn create_subscription_from_plan(&self, subscriber: &Address, plan: &u32) -> u32 {
        expect(self.try_create_subscription_from_plan(subscriber, plan))
    }

    fn get_plan_template(&self, plan: &u32) -> PlanTemplate {
        expect(self.read(|v| v.get_plan_template(*plan)))
    }

    fn update_plan_template(
        &self,
        merchant: &Address,
        plan: &u32,
        amount: &i128,
        interval: &u64,
        usage: &bool,
        cap: &Option<i128>,
    ) -> u32 {
        expect(self.run(merchant, |v, c| {
            v.update_plan_template(c, *merchant, *plan, *amount, *interval, *usage, *cap)
        }))
    }

    fn set_plan_max_active_subs(&self, merchant: &Address, plan: &u32, max: &u32) {
        expect(self.run(merchant, |v, c| v.set_plan_max_active_subs(c, *merchant, *plan, *max)))
    }

    fn try_migrate_subscription_to_plan(
        &self,
        subscriber: &Address,
        id: &u32,
        plan: &u32,
    ) -> Result<(), Error> {
        self.run(subscriber, |v, c| v.migrate_subscription_to_plan(c, *subscriber, *id, *plan))
    }

    fn migrate_subscription_to_plan(&self, subscriber: &Address, id: &u32, plan: &u32) {
        expect(self.try_migrate_subscription_to_plan(subscriber, id, plan))
    }

    fn set_subscriber_credit_limit(
        &self,
        admin: &Address,
        subscriber: &Address,
        token: &Address,
        limit: &i128,
    ) {
        expect(self.run(admin, |v, c| {
            v.set_subscriber_credit_limit(c, *admin, *subscriber, *token, *limit)
        }))
    }

    fn get_subscriber_exposure(&self, subscriber: &Address, token: &Address) -> i128 {
        expect(self.read(|v| v.get_subscriber_exposure(*subscriber, *token)))
    }

    fn try_cancel_subscription(&self, id: &u32, authorizer: &Address) -> Result<(), Error> {
        self.run(authorizer, |v, c| v.cancel_subscription(c, *id, *authorizer))
    }

    fn cancel_subscription(&self, id: &u32, authorizer: &Address) {
        expect(self.try_cancel_subscription(id, authorizer))
    }

    fn pause_subscription(&self, id: &u32, authorizer: &Address) {
        expect(self.run(authorizer, |v, c| v.pause_subscription(c, *id, *authorizer)))
    }

    fn try_resume_subscription(&self, id: &u32, authorizer: &Address) -> Result<(), Error> {
        self.run(authorizer, |v, c| v.resume_subscription(c, *id, *authorizer))
    }

    fn resume_subscription(&self, id: &u32, authorizer: &Address) {
        expect(self.try_resume_subscription(id, authorizer))
    }

    fn withdraw_subscriber_funds(&self, id: &u32, subscriber: &Address) {
        expect(self.run(subscriber, |v, c| v.withdraw_subscriber_funds(c, *id, *subscriber)))
    }

    fn try_partial_refund(
        &self,
        admin: &Address,
        id: &u32,
        subscriber: &Address,
        amount: &i128,
    ) -> Result<(), Error> {
        self.run(admin, |v, c| v.partial_refund(c, *admin, *id, *subscriber, *amount))
    }

    fn partial_refund(&self, admin: &Address, id: &u32, subscriber: &Address, amount: &i128) {
        expect(self.try_partial_refund(admin, id, subscriber, amount))
    }

    fn try_charge_subscription(&self, id: &u32) -> Result<ChargeExecutionResult, Error> {
        let quote = self.quote();
        self.run(&self.address, |v, c| v.charge_subscription(c, *id, &quote))
    }

    fn charge_subscription(&self, id: &u32) -> ChargeExecutionResult {
        expect(self.try_charge_subscription(id))
    }

    fn try_charge_usage(&self, id: &u32, amount: &i128) -> Result<(), Error> {
        self.run(&self.address, |v, c| v.charge_usage(c, *id, *amount))
    }

    fn charge_usage(&self, id: &u32, amount: &i128) {
        expect(self.try_charge_usage(id, amount))
    }

    fn try_charge_usage_with_reference(
        &self,
        id: &u32,
        amount: &i128,
        reference: &Vec<u8>,
    ) -> Result<(), Error> {
        self.run(&self.address, |v, c| {
            v.charge_usage_with_reference(c, *id, *amount, reference)
        })
    }

    fn charge_usage_with_reference(&self, id: &u32, amount: &i128, reference: &Vec<u8>) {
        expect(self.try_charge_usage_with_reference(id, amount, reference))
    }

    fn configure_usage_limits(
        &self,
        merchant: &Address,
        id: &u32,
        calls: &Option<u32>,
        window: &u64,
        burst: &u64,
        cap: &Option<i128>,
    ) {
        expect(self.run(merchant, |v, c| {
            v.configure_usage_limits(c, *merchant, *id, *calls, *window, *burst, *cap)
        }))
    }

    fn withdraw_merchant_token_funds(
        &self,
        merchant: &Address,
        token: &Address,
        amount: &i128,
    ) {
        let custody = self.custody(token);
        expect(self.run(merchant, |v, c| {
            v.withdraw_merchant_token_funds(c, *merchant, *token, *amount, custody)
        }))
    }

    fn get_subscription(&self, id: &u32) -> Subscription {
        expect(self.read(|v| v.get_subscription(*id)))
    }

    fn get_next_charge_info(&self, id: &u32) -> NextChargeInfo {
        expect(self.read(|v| v.get_next_charge_info(*id)))
    }

    fn list_subscriptions_by_subscriber(
        &self,
        subscriber: &Address,
        start: &u32,
        limit: &u32,
    ) -> SubscriptionsPage {
        expect(self.read(|v| v.list_subscriptions_by_subscriber(*subscriber, *start, *limit)))
    }

    fn get_cap_info(&self, id: &u32) -> CapInfo {
        expect(self.read(|v| v.get_cap_info(*id)))
    }

    fn get_sub_statements_offset(
        &self,
        id: &u32,
        offset: &u32,
        limit: &u32,
        newest: &bool,
    ) -> BillingStatementsPage {
        expect(self.read(|v| v.get_sub_statements_offset(*id, *offset, *limit, *newest)))
    }

    fn get_sub_statements_cursor(
        &self,
        id: &u32,
        cursor: &Option<u32>,
        limit: &u32,
        newest: &bool,
    ) -> BillingStatementsPage {
        expect(self.read(|v| v.get_sub_statements_cursor(*id, *cursor, *limit, *newest)))
    }

    fn add_accepted_token(&self, admin: &Address, token: &Address, decimals: &u32) {
        expect(self.run(admin, |v, c| v.add_accepted_token(c, *admin, *token, *decimals)))
    }

    fn set_billing_retention(&self, admin: &Address, keep: &u32) {
        expect(self.run(admin, |v, c| v.set_billing_retention(c, *admin, *keep)))
    }

    fn compact_billing_statements(
        &self,
        admin: &Address,
        id: &u32,
        keep: &Option<u32>,
    ) -> BillingCompactionSummary {
        expect(self.run(admin, |v, c| v.compact_billing_statements(c, *admin, *id, *keep)))
    }

    fn set_oracle_config(
        &self,
        admin: &Address,
        enabled: &bool,
        oracle: &Option<Address>,
        max_age: &u64,
    ) {
        expect(self.run(admin, |v, c| v.set_oracle_config(c, *admin, *enabled, *oracle, *max_age)))
    }

    fn set_metadata(&self, id: &u32, authorizer: &Address, key: &Vec<u8>, value: &Vec<u8>) {
        expect(self.run(authorizer, |v, c| {
            v.set_metadata(c, *id, *authorizer, key.clone(), value.clone())
        }))
    }

    fn delete_metadata(&self, id: &u32, authorizer: &Address, key: &Vec<u8>) {
        expect(self.run(authorizer, |v, c| v.delete_metadata(c, *id, *authorizer, key.clone())))
    }

    fn try_get_metadata(&self, id: &u32, key: &Vec<u8>) -> Result<Vec<u8>, Error> {
        self.read(|v| v.get_metadata(*id, key.clone()))
    }

    fn get_metadata(&self, id: &u32, key: &Vec<u8>) -> Vec<u8> {
        expect(self.try_get_metadata(id, key))
    }

    fn list_metadata_keys(&self, id: &u32) -> Vec<Vec<u8>> {
        expect(self.read(|v| v.list_metadata_keys(*id)))
    }

    fn set_merchant_config(
        &self,
        merchant: &Address,
        fee: &Option<Address>,
        url: &Vec<u8>,
        paused: &bool,
    ) {
        expect(self.run(merchant, |v, c| {
            v.set_merchant_config(c, *merchant, *fee, url.clone(), *paused)
        }))
    }

    fn try_charge_one(&self, id: &u32) -> Result<(), Error> {
        let quote = self.quote();
        self.run(&self.address, |v, c| charge_one(v, *id, c.now, None, &quote))
    }

    fn batch_charge(&self, ids: &Vec<u32>) -> Vec<BatchChargeResult> {
        let quote = self.quote();
        let admin = self.get_admin();
        expect(self.run(&admin, |v, c| v.batch_charge(c, ids, &quote)))
    }

    fn get_emergency_stop_status(&self) -> bool {
        self.read(|v| v.get_emergency_stop_status())
    }

    fn get_subscriber_credit_limit(&self, subscriber: &Address, token: &Address) -> i128 {
        self.read(|v| v.get_subscriber_credit_limit(*subscriber, *token))
    }

    fn get_merchant_balance(&self, merchant: &Address) -> i128 {
        self.read(|v| v.get_merchant_balance(*merchant))
    }

    fn get_merchant_balance_by_token(&self, merchant: &Address, token: &Address) -> i128 {
        self.read(|v| v.get_merchant_balance_by_token(*merchant, *token))
    }

    fn get_stmt_compacted_aggregate(&self, id: &u32) -> BillingStatementAggregate {
        self.read(|v| v.get_stmt_compacted_aggregate(*id))
    }

    fn get_merchant_config(&self, merchant: &Address) -> Option<MerchantConfig<Vec<u8>>> {
        self.read(|v| v.get_merchant_config(*merchant))
    }
}

// -- helpers ------------------------------------------------------------------

fn create_token_and_mint(env: &Env, recipient: &Address, amount: i128) -> Address {
    let token = env.generate();
    env.token(token).mint(recipient, &amount);
    token
}

/// Standard setup: init with a token and a grace period of 7 days.
fn setup_test_env() -> (Env, Client, Address, Address) {
    let env = Env::new();
    let client = env.register();

    let admin = env.generate();
    let token = env.generate();
    let min_topup = 1_000_000i128; // 1 USDC
    client.init(&token, &6, &admin, &min_topup, &(7 * 24 * 60 * 60));

    (env, client, token, admin)
}

fn setup_contract(env: &Env) -> (Client, Address, Address) {
    let client = env.register();
    let admin = env.generate();
    let token = env.generate();
    client.init(&token, &6, &admin, &1_000_000i128, &(7 * 24 * 60 * 60));
    (client, token, admin)
}

fn setup_usage_env() -> (Env, Client, Address, Address) {
    let env = Env::new();
    env.set_time(USAGE_T0);
    let client = env.register();
    let admin = env.generate();
    let token = env.generate();
    client.init(&token, &6, &admin, &1_000_000i128, &(7 * 24 * 60 * 60));
    (env, client, token, admin)
}

fn setup_grace_env() -> (Env, Client, Address) {
    let env = Env::new();
    let client = env.register();
    let admin = env.generate();
    let token = env.generate();
    client.init(&token, &6, &admin, &1_000_000i128, &GRACE_PERIOD);
    (env, client, token)
}

fn create_subscription(env: &Env, client: &Client) -> (u32, Address, Address) {
    create_test_subscription(env, client, SubscriptionStatus::Active)
}

/// Create a test subscription, then patch its status for direct-manipulation tests.
fn create_test_subscription(
    env: &Env,
    client: &Client,
    status: SubscriptionStatus,
) -> (u32, Address, Address) {
    let subscriber = env.generate();
    let merchant = env.generate();
    let id = client.create_subscription(
        &subscriber,
        &merchant,
        &AMOUNT,
        &INTERVAL,
        &false,
        &None::<i128>,
    );
    if status != SubscriptionStatus::Active {
        let mut sub = client.get_subscription(&id);
        sub.status = status;
        client.patch(id, sub);
    }
    (id, subscriber, merchant)
}

/// Seed a subscription with a known prepaid balance directly in storage.
fn seed_balance(_env: &Env, client: &Client, id: u32, balance: i128) {
    let mut sub = client.get_subscription(&id);
    sub.prepaid_balance = balance;
    client.patch(id, sub);
}

/// Seed the `next_id` counter to an arbitrary value.
fn seed_counter(env: &Env, value: u32) {
    env.0.borrow_mut().vault.next_id = value;
}

// -- Contract Lifecycle Tests -------------------------------------------------

#[test]
fn test_pause_subscription_from_active() {
    let (env, client, _, _) = setup_test_env();
    let (id, subscriber, _) = create_test_subscription(&env, &client, SubscriptionStatus::Active);
    client.pause_subscription(&id, &subscriber);
    assert_eq!(
        client.get_subscription(&id).status,
        SubscriptionStatus::Paused
    );
}

#[test]
#[should_panic(expected = "Error(Contract, #400)")]
fn test_pause_subscription_from_cancelled_should_fail() {
    let (env, client, _, _) = setup_test_env();
    let (id, subscriber, _) = create_test_subscription(&env, &client, SubscriptionStatus::Active);
    client.cancel_subscription(&id, &subscriber);
    client.pause_subscription(&id, &subscriber);
}

#[test]
fn test_pause_subscription_from_paused_is_idempotent() {
    let (env, client, _, _) = setup_test_env();
    let (id, subscriber, _) = create_test_subscription(&env, &client, SubscriptionStatus::Active);
    client.pause_subscription(&id, &subscriber);
    client.pause_subscription(&id, &subscriber);
    assert_eq!(
        client.get_subscription(&id).status,
        SubscriptionStatus::Paused
    );
}

#[test]
fn test_cancel_subscription_from_active() {
    let (env, client, _, _) = setup_test_env();
    let (id, subscriber, _) = create_test_subscription(&env, &client, SubscriptionStatus::Active);
    client.cancel_subscription(&id, &subscriber);
    assert_eq!(
        client.get_subscription(&id).status,
        SubscriptionStatus::Cancelled
    );
}

#[test]
fn test_cancel_subscription_from_paused() {
    let (env, client, _, _) = setup_test_env();
    let (id, subscriber, _) = create_test_subscription(&env, &client, SubscriptionStatus::Active);
    client.pause_subscription(&id, &subscriber);
    client.cancel_subscription(&id, &subscriber);
    assert_eq!(
        client.get_subscription(&id).status,
        SubscriptionStatus::Cancelled
    );
}

#[test]
fn test_cancel_subscription_from_cancelled_is_idempotent() {
    let (env, client, _, _) = setup_test_env();
    let (id, subscriber, _) = create_test_subscription(&env, &client, SubscriptionStatus::Active);
    client.cancel_subscription(&id, &subscriber);
    client.cancel_subscription(&id, &subscriber);
    assert_eq!(
        client.get_subscription(&id).status,
        SubscriptionStatus::Cancelled
    );
}

#[test]
fn test_resume_subscription_from_paused() {
    let (env, client, _, _) = setup_test_env();
    let (id, subscriber, _) = create_test_subscription(&env, &client, SubscriptionStatus::Active);
    client.pause_subscription(&id, &subscriber);
    client.resume_subscription(&id, &subscriber);
    assert_eq!(
        client.get_subscription(&id).status,
        SubscriptionStatus::Active
    );
}

#[test]
#[should_panic(expected = "Error(Contract, #400)")]
fn test_resume_subscription_from_cancelled_should_fail() {
    let (env, client, _, _) = setup_test_env();
    let (id, subscriber, _) = create_test_subscription(&env, &client, SubscriptionStatus::Active);
    client.cancel_subscription(&id, &subscriber);
    client.resume_subscription(&id, &subscriber);
}

#[test]
fn test_full_lifecycle_active_pause_resume() {
    let (env, client, _, _) = setup_test_env();
    let (id, subscriber, _) = create_test_subscription(&env, &client, SubscriptionStatus::Active);
    client.pause_subscription(&id, &subscriber);
    assert_eq!(
        client.get_subscription(&id).status,
        SubscriptionStatus::Paused
    );
    client.resume_subscription(&id, &subscriber);
    assert_eq!(
        client.get_subscription(&id).status,
        SubscriptionStatus::Active
    );
    client.pause_subscription(&id, &subscriber);
    assert_eq!(
        client.get_subscription(&id).status,
        SubscriptionStatus::Paused
    );
}

#[test]
fn test_all_valid_transitions_coverage() {
    // Active -> Paused
    {
        let (env, client, _, _) = setup_test_env();
        let (id, subscriber, _) =
            create_test_subscription(&env, &client, SubscriptionStatus::Active);
        client.pause_subscription(&id, &subscriber);
        assert_eq!(
            client.get_subscription(&id).status,
            SubscriptionStatus::Paused
        );
    }
    // Active -> Cancelled
    {
        let (env, client, _, _) = setup_test_env();
        let (id, subscriber, _) =
            create_test_subscription(&env, &client, SubscriptionStatus::Active);
        client.cancel_subscription(&id, &subscriber);
        assert_eq!(
            client.get_subscription(&id).status,
            SubscriptionStatus::Cancelled
        );
    }
    // Active -> InsufficientBalance (direct storage patch)
    {
        let (env, client, _, _) = setup_test_env();
        let (id, _, _) = create_test_subscription(&env, &client, SubscriptionStatus::Active);
        let mut sub = client.get_subscription(&id);
        sub.status = SubscriptionStatus::InsufficientBalance;
        client.patch(id, sub);
        assert_eq!(
            client.get_subscription(&id).status,
            SubscriptionStatus::InsufficientBalance
        );
    }
    // Paused -> Active
    {
        let (env, client, _, _) = setup_test_env();
        let (id, subscriber, _) =
            create_test_subscription(&env, &client, SubscriptionStatus::Active);
        client.pause_subscription(&id, &subscriber);
        client.resume_subscription(&id, &subscriber);
        assert_eq!(
            client.get_subscription(&id).status,
            SubscriptionStatus::Active
        );
    }
    // Paused -> Cancelled
    {
        let (env, client, _, _) = setup_test_env();
        let (id, subscriber, _) =
            create_test_subscription(&env, &client, SubscriptionStatus::Active);
        client.pause_subscription(&id, &subscriber);
        client.cancel_subscription(&id, &subscriber);
        assert_eq!(
            client.get_subscription(&id).status,
            SubscriptionStatus::Cancelled
        );
    }
    // InsufficientBalance -> Active
    {
        let (env, client, _, _) = setup_test_env();
        let (id, subscriber, _) =
            create_test_subscription(&env, &client, SubscriptionStatus::Active);
        let mut sub = client.get_subscription(&id);
        sub.status = SubscriptionStatus::InsufficientBalance;
        client.patch(id, sub);
        client.resume_subscription(&id, &subscriber);
        assert_eq!(
            client.get_subscription(&id).status,
            SubscriptionStatus::Active
        );
    }
    // InsufficientBalance -> Cancelled
    {
        let (env, client, _, _) = setup_test_env();
        let (id, subscriber, _) =
            create_test_subscription(&env, &client, SubscriptionStatus::Active);
        let mut sub = client.get_subscription(&id);
        sub.status = SubscriptionStatus::InsufficientBalance;
        client.patch(id, sub);
        client.cancel_subscription(&id, &subscriber);
        assert_eq!(
            client.get_subscription(&id).status,
            SubscriptionStatus::Cancelled
        );
    }
}

#[test]
#[should_panic(expected = "Error(Contract, #400)")]
fn test_invalid_cancelled_to_active() {
    let (env, client, _, _) = setup_test_env();
    let (id, subscriber, _) = create_test_subscription(&env, &client, SubscriptionStatus::Active);
    client.cancel_subscription(&id, &subscriber);
    client.resume_subscription(&id, &subscriber);
}

#[test]
#[should_panic(expected = "Error(Contract, #400)")]
fn test_invalid_insufficient_balance_to_paused() {
    let (env, client, _, _) = setup_test_env();
    let (id, subscriber, _) = create_test_subscription(&env, &client, SubscriptionStatus::Active);
    let mut sub = client.get_subscription(&id);
    sub.status = SubscriptionStatus::InsufficientBalance;
    client.patch(id, sub);
    client.pause_subscription(&id, &subscriber);
}

// -- Subscription struct tests ------------------------------------------------

#[test]
fn test_subscription_struct_status_field() {
    let env = Env::new();
    let sub = Subscription {
        subscriber: env.generate(),
        merchant: env.generate(),
        token: env.generate(),
        amount: 100_000_000,
        interval_seconds: 30 * 24 * 60 * 60,
        last_payment_timestamp: 0,
        status: SubscriptionStatus::Active,
        prepaid_balance: 500_000_000,
        usage_enabled: false,
        lifetime_cap: None,
        lifetime_charged: 0,
    };
    assert_eq!(sub.status, SubscriptionStatus::Active);
    assert_eq!(sub.lifetime_cap, None);
    assert_eq!(sub.lifetime_charged, 0);
}

#[test]
fn test_subscription_struct_with_lifetime_cap() {
    let env = Env::new();
    let cap = 120_000_000i128; // 120 USDC
    let sub = Subscription {
        subscriber: env.generate(),
        merchant: env.generate(),
        token: env.generate(),
        amount: 10_000_000,
        interval_seconds: 30 * 24 * 60 * 60,
        last_payment_timestamp: 0,
        status: SubscriptionStatus::Active,
        prepaid_balance: 50_000_000,
        usage_enabled: false,
        lifetime_cap: Some(cap),
        lifetime_charged: 0,
    };
    assert_eq!(sub.lifetime_cap, Some(cap));
    assert_eq!(sub.lifetime_charged, 0);
}

// -- Contract Charging Tests --------------------------------------------------

#[test]
fn test_charge_subscription_basic() {
    let (env, client, _, admin) = setup_test_env();
    env.set_time(T0);

    let (id, _, _) = create_test_subscription(&env, &client, SubscriptionStatus::Active);
    seed_balance(&env, &client, id, PREPAID);

    env.set_time(T0 + INTERVAL + 1);
    client.charge_subscription(&id);

    let sub = client.get_subscription(&id);
    assert_eq!(sub.prepaid_balance, PREPAID - AMOUNT);
    assert_eq!(sub.lifetime_charged, AMOUNT);
}

#[test]
#[should_panic(expected = "Error(Contract, #1002)")]
fn test_charge_subscription_paused_fails() {
    let (env, client, _, _) = setup_test_env();
    env.set_time(T0);
    let (id, subscriber, _) = create_test_subscription(&env, &client, SubscriptionStatus::Active);
    seed_balance(&env, &client, id, PREPAID);
    client.pause_subscription(&id, &subscriber);
    env.set_time(T0 + INTERVAL + 1);
    client.charge_subscription(&id);
}

#[test]
fn test_charge_subscription_insufficient_balance_returns_error() {
    let (env, client, _, _) = setup_test_env();
    env.set_time(T0);
    let (id, _, _) = create_test_subscription(&env, &client, SubscriptionStatus::Active);
    // Do not fund - balance stays 0
    // Charge attempt after interval + grace period should return InsufficientBalance error.
    let grace_period = 7 * 24 * 60 * 60u64;
    env.set_time(T0 + INTERVAL + grace_period + 1);
    let result = client.try_charge_one(&id);
    assert!(result.is_err());
}

// -- ID limit test ------------------------------------------------------------

#[test]
#[should_panic(expected = "Error(Contract, #429)")]
fn test_subscription_limit_reached() {
    let (env, client, _, _) = setup_test_env();
    seed_counter(&env, MAX_SUBSCRIPTION_ID);
    let subscriber = env.generate();
    let merchant = env.generate();
    client.create_subscription(
        &subscriber,
        &merchant,
        &AMOUNT,
        &INTERVAL,
        &false,
        &None::<i128>,
    );
}

#[test]
fn test_cancel_subscription_unauthorized() {
    let (env, client, _, _) = setup_test_env();
    let subscriber = env.generate();
    let merchant = env.generate();
    let other = env.generate();
    let sub_id =
        client.create_subscription(&subscriber, &merchant, &1000, &86400, &true, &None::<i128>);
    let result = client.try_cancel_subscription(&sub_id, &other);
    assert_eq!(result, Err(Error::Forbidden));
}

#[test]
fn test_withdraw_subscriber_funds() {
    let env = Env::new();

    let admin = env.generate();
    let token_contract = env.generate();
    let token = env.token(token_contract);
    let token_admin = env.token(token_contract);

    let client = env.register();
    let vault_admin = env.generate();
    let subscriber = env.generate();
    let merchant = env.generate();

    client.init(
        &token_contract,
        &6,
        &vault_admin,
        &1000,
        &(7 * 24 * 60 * 60),
    );
    token_admin.mint(&subscriber, &5000);

    let sub_id =
        client.create_subscription(&subscriber, &merchant, &1000, &86400, &true, &None::<i128>);
    client.deposit_funds(&sub_id, &subscriber, &5000);
    client.cancel_subscription(&sub_id, &subscriber);
    client.withdraw_subscriber_funds(&sub_id, &subscriber);

    let sub = client.get_subscription(&sub_id);
    assert_eq!(sub.prepaid_balance, 0);
    assert_eq!(token.balance(&subscriber), 5000);
    assert_eq!(token.balance(&client.address), 0);
}

// ── Min-Topup Enforcement Tests ────────────────────────────────────────────────

#[test]
fn test_min_topup_below_threshold() {
    let env = Env::new();
    let client = env.register();

    let admin = env.generate();
    let token_addr = env.generate();
    let subscriber = env.generate();
    let merchant = env.generate();
    let min_topup = 5_000_000i128;

    client.init(&token_addr, &6, &admin, &min_topup, &(7 * 24 * 60 * 60));
    let id = client.create_subscription(
        &subscriber,
        &merchant,
        &10_000_000i128,
        &(30 * 24 * 60 * 60),
        &false,
        &None::<i128>,
    );
    client.cancel_subscription(&id, &merchant);
    let result = client.try_deposit_funds(&id, &subscriber, &4_999_999);
    assert!(result.is_err());
}

#[test]
fn test_min_topup_exactly_at_threshold() {
    let env = Env::new();
    let client = env.register();

    let admin = env.generate();
    let token_addr = env.generate();
    let token_admin = env.token(token_addr);
    let subscriber = env.generate();
    let merchant = env.generate();
    let min_topup = 5_000_000i128;

    client.init(&token_addr, &6, &admin, &min_topup, &(7 * 24 * 60 * 60));
    token_admin.mint(&subscriber, &min_topup);
    let id = client.create_subscription(
        &subscriber,
        &merchant,
        &10_000_000i128,
        &(30 * 24 * 60 * 60),
        &false,
        &None::<i128>,
    );
    assert!(client
        .try_deposit_funds(&id, &subscriber, &min_topup)
        .is_ok());
}

// -- Deposit tests ------------------------------------------------------------

#[test]
fn test_min_topup_above_threshold() {
    let env = Env::new();
    let client = env.register();

    let admin = env.generate();
    let token_addr = env.generate();
    let token_admin = env.token(token_addr);
    let subscriber = env.generate();
    let merchant = env.generate();
    let min_topup = 5_000_000i128;
    let deposit_amount = 10_000_000i128;

    client.init(&token_addr, &6, &admin, &min_topup, &(7 * 24 * 60 * 60));
    token_admin.mint(&subscriber, &deposit_amount);
    let id = client.create_subscription(
        &subscriber,
        &merchant,
        &deposit_amount,
        &(30 * 24 * 60 * 60),
        &false,
        &None::<i128>,
    );
    assert!(client
        .try_deposit_funds(&id, &subscriber, &deposit_amount)
        .is_ok());
}

// ── Usage-charge tests ─────────────────────────────────────────────────────────

// -- Deposit tests ------------------------------------------------------------

#[test]
fn test_deposit_funds_basic() {
    let (env, client, token, _) = setup_test_env();
    let subscriber = env.generate();
    let merchant = env.generate();

    let token_admin_client = env.token(token);
    token_admin_client.mint(&subscriber, &100_000_000);

    let id = client.create_subscription(
        &subscriber,
        &merchant,
        &AMOUNT,
        &INTERVAL,
        &false,
        &None::<i128>,
    );
    client.deposit_funds(&id, &subscriber, &5_000_000);
    let sub = client.get_subscription(&id);
    assert_eq!(sub.prepaid_balance, 5_000_000);
}

#[test]
#[should_panic(expected = "Error(Contract, #402)")]
fn test_deposit_funds_below_minimum() {
    let (env, client, token, _) = setup_test_env();
    let subscriber = env.generate();
    let merchant = env.generate();
    let id = client.create_subscription(
        &subscriber,
        &merchant,
        &AMOUNT,
        &INTERVAL,
        &false,
        &None::<i128>,
    );
    // min_topup is 1_000_000; try to deposit 500
    client.deposit_funds(&id, &subscriber, &500);
}

// -- Admin tests --------------------------------------------------------------

#[test]
fn test_rotate_admin() {
    let (env, client, _, admin) = setup_test_env();
    let new_admin = env.generate();
    client.rotate_admin(&admin, &new_admin);
    assert_eq!(client.get_admin(), new_admin);
}

#[test]
fn test_emergency_stop() {
    let (env, client, _, admin) = setup_test_env();
    assert!(!client.get_emergency_stop_status());
    client.enable_emergency_stop(&admin);
    assert!(client.get_emergency_stop_status());
    client.disable_emergency_stop(&admin);
    assert!(!client.get_emergency_stop_status());
}

#[test]
#[should_panic(expected = "Error(Contract, #1009)")]
fn test_create_subscription_blocked_by_emergency_stop() {
    let (env, client, _, admin) = setup_test_env();
    client.enable_emergency_stop(&admin);
    let subscriber = env.generate();
    let merchant = env.generate();
    client.create_subscription(
        &subscriber,
        &merchant,
        &AMOUNT,
        &INTERVAL,
        &false,
        &None::<i128>,
    );
}

// -- Batch charge tests -------------------------------------------------------

#[test]
fn test_batch_charge() {
    let (env, client, _, admin) = setup_test_env();
    env.set_time(T0);

    let (id1, _, _) = create_test_subscription(&env, &client, SubscriptionStatus::Active);
    let (id2, _, _) = create_test_subscription(&env, &client, SubscriptionStatus::Active);
    seed_balance(&env, &client, id1, PREPAID);
    seed_balance(&env, &client, id2, PREPAID);

    env.set_time(T0 + INTERVAL + 1);

    let ids = vec![id1, id2];
    let results = client.batch_charge(&ids);
    assert_eq!(results.len(), 2);
    assert!(results[0].success);
    assert!(results[1].success);
}

// -- Next charge info test ----------------------------------------------------

#[test]
fn test_next_charge_info() {
    let (env, client, _, _) = setup_test_env();
    env.set_time(T0);
    let (id, _, _) = create_test_subscription(&env, &client, SubscriptionStatus::Active);
    let info = client.get_next_charge_info(&id);
    assert_eq!(info.next_charge_timestamp, T0 + INTERVAL);
    assert!(info.is_charge_expected);
}

// -- Compute next charge info (unit) ------------------------------------------

#[test]
fn test_compute_next_charge_info_active() {
    let env = Env::new();
    let sub = Subscription {
        subscriber: env.generate(),
        merchant: env.generate(),
        token: env.generate(),
        amount: AMOUNT,
        interval_seconds: INTERVAL,
        last_payment_timestamp: T0,
        status: SubscriptionStatus::Active,
        prepaid_balance: 0,
        usage_enabled: false,
        lifetime_cap: None,
        lifetime_charged: 0,
    };
    let info = compute_next_charge_info(&sub);
    assert_eq!(info.next_charge_timestamp, T0 + INTERVAL);
    assert!(info.is_charge_expected);
}

#[test]
fn test_compute_next_charge_info_paused() {
    let env = Env::new();
    let sub = Subscription {
        subscriber: env.generate(),
        merchant: env.generate(),
        token: env.generate(),
        amount: AMOUNT,
        interval_seconds: INTERVAL,
        last_payment_timestamp: 2000,
        status: SubscriptionStatus::Paused,
        prepaid_balance: 50_000_000,
        usage_enabled: false,
        lifetime_cap: None,
        lifetime_charged: 0,
    };
    let info = compute_next_charge_info(&sub);
    assert!(!info.is_charge_expected);
    assert_eq!(info.next_charge_timestamp, 2000 + INTERVAL);
}

#[test]
fn test_compute_next_charge_info_cancelled() {
    let env = Env::new();
    let sub = Subscription {
        subscriber: env.generate(),
        merchant: env.generate(),
        token: env.generate(),
        amount: AMOUNT,
        interval_seconds: INTERVAL,
        last_payment_timestamp: T0,
        status: SubscriptionStatus::Cancelled,
        prepaid_balance: 0,
        usage_enabled: false,
        lifetime_cap: None,
        lifetime_charged: 0,
    };
    let info = compute_next_charge_info(&sub);
    assert!(!info.is_charge_expected);
}

#[test]
fn test_compute_next_charge_info_insufficient_balance() {
    let env = Env::new();
    let sub = Subscription {
        subscriber: env.generate(),
        merchant: env.generate(),
        token: env.generate(),
        amount: AMOUNT,
        interval_seconds: INTERVAL,
        last_payment_timestamp: 3000,
        status: SubscriptionStatus::InsufficientBalance,
        prepaid_balance: 1_000_000,
        usage_enabled: false,
        lifetime_cap: None,
        lifetime_charged: 0,
    };
    let info = compute_next_charge_info(&sub);
    assert!(info.is_charge_expected);
}

#[test]
fn test_compute_next_charge_info_overflow_protection() {
    let env = Env::new();
    let sub = Subscription {
        subscriber: env.generate(),
        merchant: env.generate(),
        token: env.generate(),
        amount: AMOUNT,
        interval_seconds: 200,
        last_payment_timestamp: u64::MAX - 100,
        status: SubscriptionStatus::Active,
        prepaid_balance: 100_000_000,
        usage_enabled: false,
        lifetime_cap: None,
        lifetime_charged: 0,
    };
    let info = compute_next_charge_info(&sub);
    assert!(info.is_charge_expected);
    assert_eq!(info.next_charge_timestamp, u64::MAX);
}

// -- Replay protection --------------------------------------------------------

#[test]
#[should_panic(expected = "Error(Contract, #1007)")]
fn test_replay_charge_same_period() {
    let (env, client, _, _) = setup_test_env();
    env.set_time(T0);
    let (id, _, _) = create_test_subscription(&env, &client, SubscriptionStatus::Active);
    seed_balance(&env, &client, id, PREPAID);

    env.set_time(T0 + INTERVAL + 1);
    client.charge_subscription(&id);
    // Second charge in same period should fail
    client.charge_subscription(&id);
}

// -- Recovery -----------------------------------------------------------------

#[test]
fn test_recover_stranded_funds() {
    let (env, client, _, admin) = setup_test_env();
    let recipient = env.generate();
    client.recover_stranded_funds(
        &admin,
        &recipient,
        &1_000_000,
        &RecoveryReason::AccidentalTransfer,
    );
    // No panic means success
}

// -- Lifetime cap tests -------------------------------------------------------

#[test]
fn test_lifetime_cap_auto_cancel() {
    let (env, client, _, _) = setup_test_env();
    env.set_time(T0);

    let subscriber = env.generate();
    let merchant = env.generate();
    // Cap = 2 * AMOUNT, so after 2 charges, should auto-cancel
    let id = client.create_subscription(
        &subscriber,
        &merchant,
        &AMOUNT,
        &INTERVAL,
        &false,
        &Some(2 * AMOUNT),
    );
    seed_balance(&env, &client, id, PREPAID);

    // First charge
    env.set_time(T0 + INTERVAL + 1);
    client.charge_subscription(&id);
    let sub = client.get_subscription(&id);
    assert_eq!(sub.lifetime_charged, AMOUNT);
    assert_eq!(sub.status, SubscriptionStatus::Active);

    // Second charge -> cap reached -> auto-cancel
    env.set_time(T0 + 2 * INTERVAL + 1);
    client.charge_subscription(&id);
    let sub = client.get_subscription(&id);
    assert_eq!(sub.lifetime_charged, 2 * AMOUNT);
    assert_eq!(sub.status, SubscriptionStatus::Cancelled);
}

#[test]
fn test_get_cap_info() {
    let (env, client, _, _) = setup_test_env();
    let subscriber = env.generate();
    let merchant = env.generate();
    let cap = 100_000_000i128;
    let id = client.create_subscription(
        &subscriber,
        &merchant,
        &AMOUNT,
        &INTERVAL,
        &false,
        &Some(cap),
    );
    let info = client.get_cap_info(&id);
    assert_eq!(info.lifetime_cap, Some(cap));
    assert_eq!(info.lifetime_charged, 0);
    assert_eq!(info.remaining_cap, Some(cap));
    assert!(!info.cap_reached);
}

// -- Plan template tests ------------------------------------------------------

/// Plan template inherits lifetime_cap to subscriptions created from it.
#[test]
fn test_plan_template_inherits_lifetime_cap() {
    let env = Env::new();

    let client = env.register();

    let subscriber = env.generate();
    let token = create_token_and_mint(&env, &subscriber, 1_000_000_000i128);
    let admin = env.generate();
    let merchant = env.generate();
    client.init(&token, &6, &admin, &1_000_000i128, &0u64);

    let cap = 50_000_000i128;
    let plan_id = client.create_plan_template(&merchant, &AMOUNT, &INTERVAL, &false, &Some(cap));

    let template = client.get_plan_template(&plan_id);
    assert_eq!(template.lifetime_cap, Some(cap));
    assert_eq!(template.version, 1);
    assert_eq!(template.template_key, plan_id);

    let sub_id = client.create_subscription_from_plan(&subscriber, &plan_id);
    let sub = client.get_subscription(&sub_id);
    assert_eq!(sub.lifetime_cap, Some(cap));
    assert_eq!(sub.lifetime_charged, 0);
}

/// Plan template with no cap creates uncapped subscriptions.
#[test]
fn test_plan_template_no_cap_creates_uncapped_sub() {
    let env = Env::new();

    let client = env.register();

    let subscriber = env.generate();
    let token = create_token_and_mint(&env, &subscriber, 1_000_000_000i128);
    let admin = env.generate();
    let merchant = env.generate();
    client.init(&token, &6, &admin, &1_000_000i128, &0u64);

    let plan_id = client.create_plan_template(&merchant, &AMOUNT, &INTERVAL, &false, &None::<i128>);
    let plan = client.get_plan_template(&plan_id);
    assert_eq!(plan.amount, AMOUNT);
    assert_eq!(plan.merchant, merchant);

    let sub_id = client.create_subscription_from_plan(&subscriber, &plan_id);
    let sub = client.get_subscription(&sub_id);
    assert_eq!(sub.amount, AMOUNT);
    assert_eq!(sub.merchant, merchant);
    assert_eq!(sub.subscriber, subscriber);
}

#[test]
fn test_plan_max_concurrent_subscriptions_enforced_per_subscriber() {
    let env = Env::new();

    let client = env.register();

    let subscriber = env.generate();
    let token = create_token_and_mint(&env, &subscriber, 1_000_000_000i128);
    let admin = env.generate();
    let merchant = env.generate();
    client.init(&token, &6, &admin, &1_000_000i128, &0u64);

    let plan_id = client.create_plan_template(&merchant, &AMOUNT, &INTERVAL, &false, &None::<i128>);

    // Limit each subscriber to a single active subscription for this plan.
    client.set_plan_max_active_subs(&merchant, &plan_id, &1);

    // First subscription succeeds.
    let _sub1 = client.create_subscription_from_plan(&subscriber, &plan_id);

    // Second subscription for the same subscriber/plan is rejected.
    let result = client.try_create_subscription_from_plan(&subscriber, &plan_id);
    assert_eq!(result, Err(Error::MaxConcurrentSubscriptionsReached));

    // Another subscriber is unaffected by this limit.
    let other_subscriber = env.generate();
    let _sub_other = client.create_subscription_from_plan(&other_subscriber, &plan_id);
}

#[test]
fn test_plan_max_concurrent_allows_new_after_cancellation() {
    let env = Env::new();

    let client = env.register();

    let subscriber = env.generate();
    let token = create_token_and_mint(&env, &subscriber, 1_000_000_000i128);
    let admin = env.generate();
    let merchant = env.generate();
    client.init(&token, &6, &admin, &1_000_000i128, &0u64);

    let plan_id = client.create_plan_template(&merchant, &AMOUNT, &INTERVAL, &false, &None::<i128>);
    client.set_plan_max_active_subs(&merchant, &plan_id, &1);

    let sub1 = client.create_subscription_from_plan(&subscriber, &plan_id);
    client.cancel_subscription(&sub1, &subscriber);

    // Because only ACTIVE subscriptions are counted, a new subscription is allowed
    // after cancellation.
    let sub2 = client.create_subscription_from_plan(&subscriber, &plan_id);
    let sub = client.get_subscription(&sub2);
    assert_eq!(sub.status, SubscriptionStatus::Active);
}

#[test]
fn test_subscriber_credit_limit_blocks_new_subscription_creation() {
    let env = Env::new();

    let client = env.register();

    let subscriber = env.generate();
    let token = create_token_and_mint(&env, &subscriber, 1_000_000_000i128);
    let admin = env.generate();
    let merchant = env.generate();
    client.init(&token, &6, &admin, &1_000_000i128, &0u64);

    // Limit total exposure for this subscriber/token to a single interval amount.
    client.set_subscriber_credit_limit(&admin, &subscriber, &token, &AMOUNT);

    // First subscription fits entirely within the limit.
    let _sub1 =
        client.create_subscription(&subscriber, &merchant, &AMOUNT, &INTERVAL, &false, &None);

    // Second subscription would exceed credit limit (another interval liability).
    let result =
        client.try_create_subscription(&subscriber, &merchant, &AMOUNT, &INTERVAL, &false, &None);
    assert_eq!(result, Err(Error::CreditLimitExceeded));
}

#[test]
fn test_subscriber_credit_limit_blocks_topup_when_exposure_exceeds_limit() {
    let env = Env::new();

    let client = env.register();

    let subscriber = env.generate();
    let token = create_token_and_mint(&env, &subscriber, 1_000_000_000i128);
    let admin = env.generate();
    let merchant = env.generate();
    client.init(&token, &6, &admin, &1_000_000i128, &0u64);

    // Exposure limit small enough that initial subscription fits, but top-up does not.
    let limit = AMOUNT + 5_000_000i128;
    client.set_subscriber_credit_limit(&admin, &subscriber, &token, &limit);

    let sub_id = client.create_subscription(
        &subscriber,
        &merchant,
        &AMOUNT,
        &INTERVAL,
        &false,
        &None::<i128>,
    );

    // Deposit that would keep us under the limit succeeds.
    client.deposit_funds(&sub_id, &subscriber, &5_000_000i128);

    // Further deposit would push exposure over the limit and must be rejected.
    let result = client.try_deposit_funds(&sub_id, &subscriber, &1_000_000i128);
    assert_eq!(result, Err(Error::CreditLimitExceeded));
}

#[test]
fn test_get_subscriber_credit_limit_and_exposure_views() {
    let env = Env::new();

    let client = env.register();

    let subscriber = env.generate();
    let token = create_token_and_mint(&env, &subscriber, 1_000_000_000i128);
    let admin = env.generate();
    let merchant = env.generate();
    client.init(&token, &6, &admin, &1_000_000i128, &0u64);

    // Default: no limit configured.
    assert_eq!(client.get_subscriber_credit_limit(&subscriber, &token), 0);

    client.set_subscriber_credit_limit(&admin, &subscriber, &token, &(AMOUNT * 10));

    // After creating a subscription, exposure reflects one interval liability and zero prepaid.
    let sub_id = client.create_subscription(
        &subscriber,
        &merchant,
        &AMOUNT,
        &INTERVAL,
        &false,
        &None::<i128>,
    );
    let exposure = client.get_subscriber_exposure(&subscriber, &token);
    assert_eq!(exposure, AMOUNT);

    // After topping up, exposure increases by the deposited amount.
    client.deposit_funds(&sub_id, &subscriber, &5_000_000i128);
    let exposure_after_topup = client.get_subscriber_exposure(&subscriber, &token);
    assert_eq!(exposure_after_topup, AMOUNT + 5_000_000i128);
}

#[test]
fn test_partial_refund_debits_prepaid_and_transfers_tokens() {
    let env = Env::new();

    let admin = env.generate();
    let token_contract = env.generate();
    let token = env.token(token_contract);
    let token_admin = env.token(token_contract);

    let client = env.register();

    let vault_admin = env.generate();
    let subscriber = env.generate();
    let merchant = env.generate();

    client.init(
        &token_contract,
        &6,
        &vault_admin,
        &1_000_000i128,
        &(7 * 24 * 60 * 60),
    );

    // Seed subscriber with tokens and create a funded subscription.
    token_admin.mint(&subscriber, &50_000_000i128);
    let sub_id = client.create_subscription(
        &subscriber,
        &merchant,
        &AMOUNT,
        &INTERVAL,
        &false,
        &None::<i128>,
    );
    client.deposit_funds(&sub_id, &subscriber, &20_000_000i128);

    let balance_before = token.balance(&subscriber);
    let sub_before = client.get_subscription(&sub_id);
    assert_eq!(sub_before.prepaid_balance, 20_000_000i128);

    // Perform a partial refund of half the prepaid balance.
    client.partial_refund(&vault_admin, &sub_id, &subscriber, &10_000_000i128);

    let balance_after = token.balance(&subscriber);
    let sub_after = client.get_subscription(&sub_id);

    assert_eq!(sub_after.prepaid_balance, 10_000_000i128);
    assert_eq!(balance_after, balance_before + 10_000_000i128);
}

#[test]
fn test_partial_refund_rejects_invalid_amounts_and_auth() {
    let env = Env::new();

    let admin = env.generate();
    let token_contract = env.generate();
    let token_admin = env.token(token_contract);

    let client = env.register();

    let vault_admin = env.generate();
    let subscriber = env.generate();
    let merchant = env.generate();

    client.init(
        &token_contract,
        &6,
        &vault_admin,
        &1_000_000i128,
        &(7 * 24 * 60 * 60),
    );

    token_admin.mint(&subscriber, &50_000_000i128);
    let sub_id = client.create_subscription(
        &subscriber,
        &merchant,
        &AMOUNT,
        &INTERVAL,
        &false,
        &None::<i128>,
    );
    client.deposit_funds(&sub_id, &subscriber, &5_000_000i128);

    // Zero or negative refund amounts are rejected.
    let zero_res = client.try_partial_refund(&vault_admin, &sub_id, &subscriber, &0i128);
    assert_eq!(zero_res, Err(Error::InvalidAmount));

    let negative_res = client.try_partial_refund(&vault_admin, &sub_id, &subscriber, &-1i128);
    assert_eq!(negative_res, Err(Error::InvalidAmount));

    // Refund exceeding prepaid balance is rejected.
    let over_res = client.try_partial_refund(&vault_admin, &sub_id, &subscriber, &10_000_000i128);
    assert_eq!(over_res, Err(Error::InsufficientBalance));

    // Non-admin cannot authorize partial refunds.
    let other_admin = env.generate();
    let unauth_res = client.try_partial_refund(&other_admin, &sub_id, &subscriber, &1_000_000i128);
    assert_eq!(unauth_res, Err(Error::Unauthorized));
}

#[test]
fn test_update_plan_template_creates_new_version_and_preserves_old() {
    let env = Env::new();

    let client = env.register();

    let subscriber = env.generate();
    let token = create_token_and_mint(&env, &subscriber, 1_000_000_000i128);
    let admin = env.generate();
    let merchant = env.generate();
    client.init(&token, &6, &admin, &1_000_000i128, &0u64);

    let cap = 50_000_000i128;
    let plan_id = client.create_plan_template(&merchant, &AMOUNT, &INTERVAL, &false, &Some(cap));
    let original = client.get_plan_template(&plan_id);
    assert_eq!(original.version, 1);

    let new_amount = AMOUNT * 2;
    let new_interval = INTERVAL / 2;
    let new_plan_id = client.update_plan_template(
        &merchant,
        &plan_id,
        &new_amount,
        &new_interval,
        &true,
        &Some(cap),
    );

    // Old plan remains unchanged and addressable.
    let original_after = client.get_plan_template(&plan_id);
    assert_eq!(original_after.version, 1);
    assert_eq!(original_after.amount, AMOUNT);
    assert_eq!(original_after.interval_seconds, INTERVAL);
    assert!(!original_after.usage_enabled);

    // New plan has incremented version and updated fields, sharing template_key.
    let updated = client.get_plan_template(&new_plan_id);
    assert_eq!(updated.version, 2);
    assert_eq!(updated.template_key, original_after.template_key);
    assert_eq!(updated.amount, new_amount);
    assert_eq!(updated.interval_seconds, new_interval);
    assert!(updated.usage_enabled);
    assert_eq!(updated.lifetime_cap, Some(cap));
}

#[test]
fn test_migrate_subscription_to_new_plan_version() {
    let env = Env::new();

    let client = env.register();

    let subscriber = env.generate();
    let token = create_token_and_mint(&env, &subscriber, 1_000_000_000i128);
    let admin = env.generate();
    let merchant = env.generate();
    client.init(&token, &6, &admin, &1_000_000i128, &0u64);

    let cap = 50_000_000i128;
    let plan_id = client.create_plan_template(&merchant, &AMOUNT, &INTERVAL, &false, &Some(cap));
    let new_amount = AMOUNT * 3;
    let new_interval = INTERVAL / 3;
    let new_plan_id = client.update_plan_template(
        &merchant,
        &plan_id,
        &new_amount,
        &new_interval,
        &true,
        &Some(cap),
    );

    let sub_id = client.create_subscription_from_plan(&subscriber, &plan_id);
    let before = client.get_subscription(&sub_id);
    assert_eq!(before.amount, AMOUNT);
    assert_eq!(before.interval_seconds, INTERVAL);
    assert!(!before.usage_enabled);

    client.migrate_subscription_to_plan(&subscriber, &sub_id, &new_plan_id);

    let after = client.get_subscription(&sub_id);
    assert_eq!(after.amount, new_amount);
    assert_eq!(after.interval_seconds, new_interval);
    assert!(after.usage_enabled);
    // Lifetime tracking is preserved.
    assert_eq!(after.lifetime_charged, 0);
    assert_eq!(after.lifetime_cap, Some(cap));
}

#[test]
fn test_migrate_subscription_rejects_cross_template_family() {
    let env = Env::new();

    let client = env.register();

    let subscriber = env.generate();
    let token = create_token_and_mint(&env, &subscriber, 1_000_000_000i128);
    let admin = env.generate();
    let merchant = env.generate();
    client.init(&token, &6, &admin, &1_000_000i128, &0u64);

    let plan_family_a =
        client.create_plan_template(&merchant, &AMOUNT, &INTERVAL, &false, &None::<i128>);
    let plan_family_b =
        client.create_plan_template(&merchant, &(AMOUNT * 2), &INTERVAL, &false, &None::<i128>);

    let sub_id = client.create_subscription_from_plan(&subscriber, &plan_family_a);

    let result = client.try_migrate_subscription_to_plan(&subscriber, &sub_id, &plan_family_b);
    assert_eq!(result, Err(Error::InvalidInput));
}

#[test]
fn test_migrate_subscription_requires_plan_origin() {
    let (env, client, _, _) = setup_test_env();
    let subscriber = env.generate();
    let merchant = env.generate();

    // Create a subscription directly (not from a plan template).
    let sub_id = client.create_subscription(
        &subscriber,
        &merchant,
        &AMOUNT,
        &INTERVAL,
        &false,
        &None::<i128>,
    );

    // Create a plan template to migrate to.
    let plan_id = client.create_plan_template(&merchant, &AMOUNT, &INTERVAL, &false, &None::<i128>);

    let result = client.try_migrate_subscription_to_plan(&subscriber, &sub_id, &plan_id);
    assert_eq!(result, Err(Error::InvalidInput));
}

#[test]
fn test_update_plan_template_cannot_change_token() {
    let env = Env::new();

    let client = env.register();

    let subscriber = env.generate();
    let token = create_token_and_mint(&env, &subscriber, 1_000_000_000i128);
    let other_token = create_token_and_mint(&env, &subscriber, 1_000_000_000i128);
    let admin = env.generate();
    let merchant = env.generate();
    client.init(&token, &6, &admin, &1_000_000i128, &0u64);
    client.add_accepted_token(&admin, &other_token, &6);

    let plan_id = client.create_plan_template(&merchant, &AMOUNT, &INTERVAL, &false, &None::<i128>);
    let original = client.get_plan_template(&plan_id);

    // Even if we conceptually want to move to a different token, versioning API
    // does not allow this; such a change should use a separate template family.
    let _ = original; // silence unused, documentation-only test narrative.

    // We indirectly assert this by verifying that update_plan_template always
    // keeps the existing token.
    let new_plan_id = client.update_plan_template(
        &merchant,
        &plan_id,
        &(AMOUNT * 2),
        &INTERVAL,
        &false,
        &None::<i128>,
    );
    let updated = client.get_plan_template(&new_plan_id);
    assert_eq!(updated.token, token);
}

/// Subscriber can withdraw remaining prepaid balance after cap-triggered cancellation.
#[test]
fn test_cap_cancelled_subscriber_can_withdraw() {
    let env = Env::new();

    let client = env.register();

    let subscriber = env.generate();
    let token = create_token_and_mint(&env, &subscriber, 1_000_000_000i128);
    let admin = env.generate();
    let merchant = env.generate();
    client.init(&token, &6, &admin, &1_000_000i128, &0u64);

    let cap = 2 * AMOUNT;
    let sub_id = client.create_subscription(
        &subscriber,
        &merchant,
        &AMOUNT,
        &INTERVAL,
        &false,
        &Some(cap),
    );

    // Fund the subscription so the vault holds real tokens for withdrawal.
    client.deposit_funds(&sub_id, &subscriber, &PREPAID);

    // Advance time and charge twice — second charge hits cap → Cancelled
    env.set_time(T0 + INTERVAL + 1);
    client.charge_subscription(&sub_id);
    env.set_time(T0 + 2 * INTERVAL + 1);
    client.charge_subscription(&sub_id);

    let sub_after = client.get_subscription(&sub_id);
    assert_eq!(sub_after.status, SubscriptionStatus::Cancelled);
    assert!(sub_after.prepaid_balance > 0);

    // Subscriber can withdraw remaining prepaid balance
    client.withdraw_subscriber_funds(&sub_id, &subscriber);
    let sub_final = client.get_subscription(&sub_id);
    assert_eq!(sub_final.prepaid_balance, 0);
}

#[test]
fn test_charge_usage_basic() {
    let (env, client, _, _) = setup_test_env();
    env.set_time(T0);

    let subscriber = env.generate();
    let merchant = env.generate();
    let id = client.create_subscription(
        &subscriber,
        &merchant,
        &AMOUNT,
        &INTERVAL,
        &true,
        &None::<i128>,
    );
    seed_balance(&env, &client, id, PREPAID);

    client.charge_usage(&id, &1_000_000);
    let sub = client.get_subscription(&id);
    assert_eq!(sub.prepaid_balance, PREPAID - 1_000_000);
}

#[test]
#[should_panic(expected = "Error(Contract, #1004)")]
fn test_charge_usage_not_enabled() {
    let (env, client, _, _) = setup_test_env();
    let (id, _, _) = create_test_subscription(&env, &client, SubscriptionStatus::Active);
    seed_balance(&env, &client, id, PREPAID);
    client.charge_usage(&id, &1_000_000);
}

// -- Merchant tests -----------------------------------------------------------

#[test]
fn test_merchant_balance_and_withdrawal() {
    let (env, client, _, _) = setup_test_env();
    env.set_time(T0);

    let (id, _, merchant) = create_test_subscription(&env, &client, SubscriptionStatus::Active);
    seed_balance(&env, &client, id, PREPAID);

    env.set_time(T0 + INTERVAL + 1);
    client.charge_subscription(&id);

    let balance = client.get_merchant_balance(&merchant);
    assert!(balance > 0);
}

// -- List subscriptions by subscriber test ------------------------------------

#[test]
fn test_list_subscriptions_by_subscriber() {
    let (env, client, _, _) = setup_test_env();
    let subscriber = env.generate();
    let merchant = env.generate();

    let id1 = client.create_subscription(
        &subscriber,
        &merchant,
        &AMOUNT,
        &INTERVAL,
        &false,
        &None::<i128>,
    );
    let id2 = client.create_subscription(
        &subscriber,
        &merchant,
        &AMOUNT,
        &INTERVAL,
        &false,
        &None::<i128>,
    );

    let page = client.list_subscriptions_by_subscriber(&subscriber, &0, &10);
    assert_eq!(page.subscription_ids.len(), 2);
    assert_eq!(page.subscription_ids[0], id1);
    assert_eq!(page.subscription_ids[1], id2);
    assert!(!page.has_next);
}

// -- Subscriber withdrawal test -----------------------------------------------

#[test]
fn test_withdraw_subscriber_funds_after_cancel() {
    let (env, client, token, _) = setup_test_env();
    let subscriber = env.generate();
    let merchant = env.generate();

    let token_admin_client = env.token(token);
    token_admin_client.mint(&subscriber, &100_000_000);

    let id = client.create_subscription(
        &subscriber,
        &merchant,
        &AMOUNT,
        &INTERVAL,
        &false,
        &None::<i128>,
    );
    client.deposit_funds(&id, &subscriber, &5_000_000);

    let sub = client.get_subscription(&id);
    assert_eq!(sub.prepaid_balance, 5_000_000);

    client.cancel_subscription(&id, &subscriber);
    client.withdraw_subscriber_funds(&id, &subscriber);

    let sub = client.get_subscription(&id);
    assert_eq!(sub.prepaid_balance, 0);
}

// -- Export tests -------------------------------------------------------------

#[test]
fn test_export_contract_snapshot() {
    let (env, client, _, admin) = setup_test_env();
    let snapshot = client.export_contract_snapshot(&admin);
    assert_eq!(snapshot.admin, admin);
    assert_eq!(snapshot.storage_version, 2);
}

#[test]
fn test_export_subscription_summaries() {
    let (env, client, _, admin) = setup_test_env();
    let (id, _, _) = create_test_subscription(&env, &client, SubscriptionStatus::Active);
    let summaries = client.export_subscription_summaries(&admin, &0, &10);
    assert_eq!(summaries.len(), 1);
    assert_eq!(summaries[0].subscription_id, id);
}

// =============================================================================
// Metadata Key-Value Store Tests
// =============================================================================

#[test]
fn test_metadata_set_and_get() {
    let (env, client, _, _) = setup_test_env();
    let (id, subscriber, _) = create_test_subscription(&env, &client, SubscriptionStatus::Active);

    let key = text("invoice_id");
    let value = text("INV-2025-001");

    client.set_metadata(&id, &subscriber, &key, &value);

    let result = client.get_metadata(&id, &key);
    assert_eq!(result, value);
}

#[test]
fn test_metadata_update_existing_key() {
    let (env, client, _, _) = setup_test_env();
    let (id, subscriber, _) = create_test_subscription(&env, &client, SubscriptionStatus::Active);

    let key = text("customer_id");
    let value1 = text("CUST-001");
    let value2 = text("CUST-002");

    client.set_metadata(&id, &subscriber, &key, &value1);
    assert_eq!(client.get_metadata(&id, &key), value1);

    client.set_metadata(&id, &subscriber, &key, &value2);
    assert_eq!(client.get_metadata(&id, &key), value2);

    // Key count should still be 1 (updated, not duplicated)
    let keys = client.list_metadata_keys(&id);
    assert_eq!(keys.len(), 1);
}

#[test]
fn test_metadata_delete() {
    let (env, client, _, _) = setup_test_env();
    let (id, subscriber, _) = create_test_subscription(&env, &client, SubscriptionStatus::Active);

    let key = text("tag");
    let value = text("premium");

    client.set_metadata(&id, &subscriber, &key, &value);
    assert_eq!(client.get_metadata(&id, &key), value);

    client.delete_metadata(&id, &subscriber, &key);

    let result = client.try_get_metadata(&id, &key);
    assert!(result.is_err());
}

#[test]
fn test_metadata_list_keys() {
    let (env, client, _, _) = setup_test_env();
    let (id, subscriber, _) = create_test_subscription(&env, &client, SubscriptionStatus::Active);

    let key1 = text("invoice_id");
    let key2 = text("customer_id");
    let key3 = text("campaign_tag");

    client.set_metadata(&id, &subscriber, &key1, &text("v1"));
    client.set_metadata(&id, &subscriber, &key2, &text("v2"));
    client.set_metadata(&id, &subscriber, &key3, &text("v3"));

    let keys = client.list_metadata_keys(&id);
    assert_eq!(keys.len(), 3);
}

#[test]
fn test_metadata_empty_list_for_new_subscription() {
    let (env, client, _, _) = setup_test_env();
    let (id, _, _) = create_test_subscription(&env, &client, SubscriptionStatus::Active);

    let keys = client.list_metadata_keys(&id);
    assert_eq!(keys.len(), 0);
}

#[test]
fn test_metadata_merchant_can_set() {
    let (env, client, _, _) = setup_test_env();
    let (id, _, merchant) = create_test_subscription(&env, &client, SubscriptionStatus::Active);

    let key = text("merchant_ref");
    let value = text("MR-123");

    client.set_metadata(&id, &merchant, &key, &value);
    assert_eq!(client.get_metadata(&id, &key), value);
}

#[test]
fn test_metadata_merchant_can_delete() {
    let (env, client, _, _) = setup_test_env();
    let (id, subscriber, merchant) =
        create_test_subscription(&env, &client, SubscriptionStatus::Active);

    let key = text("tag");
    let value = text("test");

    // Subscriber sets it
    client.set_metadata(&id, &subscriber, &key, &value);

    // Merchant deletes it
    client.delete_metadata(&id, &merchant, &key);

    let result = client.try_get_metadata(&id, &key);
    assert!(result.is_err());
}

#[test]
#[should_panic(expected = "Error(Contract, #403)")]
fn test_metadata_unauthorized_actor_rejected() {
    let (env, client, _, _) = setup_test_env();
    let (id, _, _) = create_test_subscription(&env, &client, SubscriptionStatus::Active);

    let stranger = env.generate();
    let key = text("test");
    let value = text("val");

    client.set_metadata(&id, &stranger, &key, &value);
}

#[test]
#[should_panic(expected = "Error(Contract, #403)")]
fn test_metadata_delete_unauthorized_rejected() {
    let (env, client, _, _) = setup_test_env();
    let (id, subscriber, _) = create_test_subscription(&env, &client, SubscriptionStatus::Active);

    let key = text("test");
    client.set_metadata(&id, &subscriber, &key, &text("val"));

    let stranger = env.generate();
    client.delete_metadata(&id, &stranger, &key);
}

#[test]
#[should_panic(expected = "Error(Contract, #1023)")]
fn test_metadata_key_limit_enforced() {
    let (env, client, _, _) = setup_test_env();
    let (id, subscriber, _) = create_test_subscription(&env, &client, SubscriptionStatus::Active);

    // Set MAX_METADATA_KEYS (10) keys
    for i in 0..10u32 {
        let key = text(&format!("key_{i}"));
        let value = text("val");
        client.set_metadata(&id, &subscriber, &key, &value);
    }

    // 11th key should fail
    let key = text("key_overflow");
    let value = text("val");
    client.set_metadata(&id, &subscriber, &key, &value);
}

#[test]
fn test_metadata_update_at_limit_succeeds() {
    let (env, client, _, _) = setup_test_env();
    let (id, subscriber, _) = create_test_subscription(&env, &client, SubscriptionStatus::Active);

    // Fill to max
    for i in 0..10u32 {
        let key = text(&format!("key_{i}"));
        client.set_metadata(&id, &subscriber, &key, &text("val"));
    }

    // Updating an existing key should succeed even at limit
    let key = text("key_0");
    let new_value = text("updated");
    client.set_metadata(&id, &subscriber, &key, &new_value);
    assert_eq!(client.get_metadata(&id, &key), new_value);
}

#[test]
#[should_panic(expected = "Error(Contract, #1024)")]
fn test_metadata_key_too_long_rejected() {
    let (env, client, _, _) = setup_test_env();
    let (id, subscriber, _) = create_test_subscription(&env, &client, SubscriptionStatus::Active);

    // 33 chars exceeds MAX_METADATA_KEY_LENGTH (32)
    let key = text("aaaaaaaaaaaaaaaaaaaaaaaaaaaaaaaaa");
    let value = text("val");
    client.set_metadata(&id, &subscriber, &key, &value);
}

#[test]
#[should_panic(expected = "Error(Contract, #1024)")]
fn test_metadata_empty_key_rejected() {
    let (env, client, _, _) = setup_test_env();
    let (id, subscriber, _) = create_test_subscription(&env, &client, SubscriptionStatus::Active);

    let key = text("");
    let value = text("val");
    client.set_metadata(&id, &subscriber, &key, &value);
}

#[test]
#[should_panic(expected = "Error(Contract, #1025)")]
fn test_metadata_value_too_long_rejected() {
    let (env, client, _, _) = setup_test_env();
    let (id, subscriber, _) = create_test_subscription(&env, &client, SubscriptionStatus::Active);

    let key = text("test");
    // Create a string > 256 bytes
    let long_value = vec![b'x'; 257];
    client.set_metadata(&id, &subscriber, &key, &long_value);
}

#[test]
#[should_panic(expected = "Error(Contract, #404)")]
fn test_metadata_get_nonexistent_key() {
    let (env, client, _, _) = setup_test_env();
    let (id, _, _) = create_test_subscription(&env, &client, SubscriptionStatus::Active);

    let key = text("nonexistent");
    client.get_metadata(&id, &key);
}

#[test]
#[should_panic(expected = "Error(Contract, #404)")]
fn test_metadata_delete_nonexistent_key() {
    let (env, client, _, _) = setup_test_env();
    let (id, subscriber, _) = create_test_subscription(&env, &client, SubscriptionStatus::Active);

    let key = text("nonexistent");
    client.delete_metadata(&id, &subscriber, &key);
}

#[test]
#[should_panic(expected = "Error(Contract, #404)")]
fn test_metadata_operations_on_nonexistent_subscription() {
    let (env, client, _, _) = setup_test_env();
    let subscriber = env.generate();
    let key = text("test");
    let value = text("val");
    client.set_metadata(&999, &subscriber, &key, &value);
}

#[test]
#[should_panic(expected = "Error(Contract, #1002)")]
fn test_metadata_set_on_cancelled_subscription_rejected() {
    let (env, client, _, _) = setup_test_env();
    let (id, subscriber, _) = create_test_subscription(&env, &client, SubscriptionStatus::Active);
    client.cancel_subscription(&id, &subscriber);

    let key = text("test");
    let value = text("val");
    client.set_metadata(&id, &subscriber, &key, &value);
}

#[test]
fn test_metadata_does_not_affect_financial_state() {
    let (env, client, _, _) = setup_test_env();
    let (id, subscriber, _) = create_test_subscription(&env, &client, SubscriptionStatus::Active);
    seed_balance(&env, &client, id, PREPAID);

    let sub_before = client.get_subscription(&id);

    // Set multiple metadata entries
    for i in 0..5u32 {
        let key = text(&format!("key_{i}"));
        let value = text(&format!("value_{i}"));
        client.set_metadata(&id, &subscriber, &key, &value);
    }

    let sub_after = client.get_subscription(&id);

    // Financial state must be unchanged
    assert_eq!(sub_before.prepaid_balance, sub_after.prepaid_balance);
    assert_eq!(sub_before.lifetime_charged, sub_after.lifetime_charged);
    assert_eq!(sub_before.status, sub_after.status);
    assert_eq!(sub_before.amount, sub_after.amount);
}

#[test]
fn test_metadata_delete_then_re_add() {
    let (env, client, _, _) = setup_test_env();
    let (id, subscriber, _) = create_test_subscription(&env, &client, SubscriptionStatus::Active);

    let key = text("tag");
    let value1 = text("v1");
    let value2 = text("v2");

    client.set_metadata(&id, &subscriber, &key, &value1);
    client.delete_metadata(&id, &subscriber, &key);

    // Re-add same key with different value
    client.set_metadata(&id, &subscriber, &key, &value2);
    assert_eq!(client.get_metadata(&id, &key), value2);

    let keys = client.list_metadata_keys(&id);
    assert_eq!(keys.len(), 1);
}

#[test]
fn test_metadata_delete_frees_key_slot() {
    let (env, client, _, _) = setup_test_env();
    let (id, subscriber, _) = create_test_subscription(&env, &client, SubscriptionStatus::Active);

    // Fill to max
    for i in 0..10u32 {
        let key = text(&format!("key_{i}"));
        client.set_metadata(&id, &subscriber, &key, &text("v"));
    }

    // Delete one
    client.delete_metadata(&id, &subscriber, &text("key_5"));

    // Should now be able to add a new key
    let new_key = text("key_new");
    client.set_metadata(&id, &subscriber, &new_key, &text("v"));

    let keys = client.list_metadata_keys(&id);
    assert_eq!(keys.len(), 10);
}

#[test]
fn test_metadata_isolation_between_subscriptions() {
    let (env, client, _, _) = setup_test_env();
    let (id1, sub1, _) = create_test_subscription(&env, &client, SubscriptionStatus::Active);
    let (id2, sub2, _) = create_test_subscription(&env, &client, SubscriptionStatus::Active);

    let key = text("invoice_id");
    let val1 = text("INV-001");
    let val2 = text("INV-002");

    client.set_metadata(&id1, &sub1, &key, &val1);
    client.set_metadata(&id2, &sub2, &key, &val2);

    assert_eq!(client.get_metadata(&id1, &key), val1);
    assert_eq!(client.get_metadata(&id2, &key), val2);
}

#[test]
fn test_metadata_on_paused_subscription_allowed() {
    let (env, client, _, _) = setup_test_env();
    let (id, subscriber, _) = create_test_subscription(&env, &client, SubscriptionStatus::Active);
    client.pause_subscription(&id, &subscriber);

    let key = text("note");
    let value = text("paused for maintenance");
    client.set_metadata(&id, &subscriber, &key, &value);
    assert_eq!(client.get_metadata(&id, &key), value);
}

#[test]
fn test_metadata_delete_on_cancelled_subscription_allowed() {
    let (env, client, _, _) = setup_test_env();
    let (id, subscriber, _) = create_test_subscription(&env, &client, SubscriptionStatus::Active);

    let key = text("tag");
    client.set_metadata(&id, &subscriber, &key, &text("v"));

    client.cancel_subscription(&id, &subscriber);

    // Delete should still work on cancelled (cleanup)
    client.delete_metadata(&id, &subscriber, &key);
    let result = client.try_get_metadata(&id, &key);
    assert!(result.is_err());
}

#[test]
fn test_billing_statements_offset_pagination_newest_first() {
    let env = Env::new();
    env.set_time(T0);
    let (client, token, _admin) = setup_contract(&env);

    let subscriber = env.generate();
    let merchant = env.generate();
    env.token(token).mint(&subscriber, &1_000_000_000i128);

    let id = client.create_subscription(
        &subscriber,
        &merchant,
        &1_000_000i128,
        &INTERVAL,
        &true,
        &None::<i128>,
    );
    client.deposit_funds(&id, &subscriber, &200_000_000i128);

    for i in 1..=6 {
        env.set_time(T0 + (i as u64 * INTERVAL));
        client.charge_subscription(&id);
    }

    let page1 = client.get_sub_statements_offset(&id, &0, &2, &true);
    assert_eq!(page1.total, 6);
    assert_eq!(page1.statements.len(), 2);
    assert_eq!(page1.statements[0].sequence, 5);
    assert_eq!(page1.statements[1].sequence, 4);

    let page2 = client.get_sub_statements_offset(&id, &2, &2, &true);
    assert_eq!(page2.statements.len(), 2);
    assert_eq!(page2.statements[0].sequence, 3);
    assert_eq!(page2.statements[1].sequence, 2);
}

#[test]
fn test_billing_statements_cursor_pagination_boundaries() {
    let env = Env::new();
    env.set_time(T0);
    let (client, token, _admin) = setup_contract(&env);

    let subscriber = env.generate();
    let merchant = env.generate();
    env.token(token).mint(&subscriber, &1_000_000_000i128);

    let id = client.create_subscription(
        &subscriber,
        &merchant,
        &1_000_000i128,
        &INTERVAL,
        &true,
        &None::<i128>,
    );
    client.deposit_funds(&id, &subscriber, &200_000_000i128);

    for i in 1..=4 {
        env.set_time(T0 + (i as u64 * INTERVAL));
        client.charge_subscription(&id);
    }

    let first = client.get_sub_statements_cursor(&id, &None::<u32>, &3, &true);
    assert_eq!(first.statements.len(), 3);
    assert_eq!(first.statements[0].sequence, 3);
    assert_eq!(first.statements[2].sequence, 1);
    assert_eq!(first.next_cursor, Some(0));

    let second = client.get_sub_statements_cursor(&id, &first.next_cursor, &3, &true);
    assert_eq!(second.statements.len(), 1);
    assert_eq!(second.statements[0].sequence, 0);
    assert_eq!(second.next_cursor, None);

    let invalid_cursor = client.get_sub_statements_cursor(&id, &Some(99u32), &2, &true);
    assert_eq!(invalid_cursor.statements.len(), 0);
    assert_eq!(invalid_cursor.next_cursor, None);
    assert_eq!(invalid_cursor.total, 4);
}

#[test]
fn test_compaction_prunes_old_statements_and_keeps_recent() {
    let env = Env::new();
    env.set_time(T0);
    let (client, token, admin) = setup_contract(&env);

    let subscriber = env.generate();
    let merchant = env.generate();
    env.token(token).mint(&subscriber, &2_000_000_000i128);

    let id = client.create_subscription(
        &subscriber,
        &merchant,
        &1_000_000i128,
        &INTERVAL,
        &false,
        &None::<i128>,
    );
    client.deposit_funds(&id, &subscriber, &500_000_000i128);

    for i in 1..=8 {
        env.set_time(T0 + (i as u64 * INTERVAL));
        client.charge_subscription(&id);
    }

    client.set_billing_retention(&admin, &3);
    let summary = client.compact_billing_statements(&admin, &id, &None::<u32>);
    assert_eq!(summary.pruned_count, 5);
    assert_eq!(summary.kept_count, 3);
    assert_eq!(summary.total_pruned_amount, 5_000_000i128);

    let page = client.get_sub_statements_offset(&id, &0, &10, &true);
    assert_eq!(page.total, 3);
    assert_eq!(page.statements.len(), 3);
    assert_eq!(page.statements[0].sequence, 7);
    assert_eq!(page.statements[2].sequence, 5);

    let agg = client.get_stmt_compacted_aggregate(&id);
    assert_eq!(agg.pruned_count, 5);
    assert_eq!(agg.total_amount, 5_000_000i128);
}

#[test]
fn test_compaction_no_rows_and_override_value() {
    let env = Env::new();
    let (client, _token, admin) = setup_contract(&env);
    let subscriber = env.generate();
    let merchant = env.generate();
    let id = client.create_subscription(
        &subscriber,
        &merchant,
        &1_000_000i128,
        &INTERVAL,
        &false,
        &None::<i128>,
    );

    let summary = client.compact_billing_statements(&admin, &id, &Some(10u32));
    assert_eq!(summary.pruned_count, 0);
    assert_eq!(summary.kept_count, 0);
    assert_eq!(summary.total_pruned_amount, 0);
}

#[test]
fn test_oracle_enabled_charge_uses_quote_conversion() {
    let env = Env::new();
    env.set_time(T0);
    let (client, token, admin) = setup_contract(&env);
    let oracle_id = env.generate();
    env.set_price(2_000_000i128, T0); // 2 quote units/token with 6 decimals

    // Enable oracle pricing with non-stale quote.
    client.set_oracle_config(
        &admin,
        &true,
        &Some(oracle_id),
        &(60 * 24 * 60 * 60),
    );

    let subscriber = env.generate();
    let merchant = env.generate();
    env.token(token).mint(&subscriber, &2_000_000_000i128);

    // 20 quote units (6 decimals). At price 2 quote/token, charge should be 10 tokens.
    let id = client.create_subscription(
        &subscriber,
        &merchant,
        &20_000_000i128,
        &INTERVAL,
        &false,
        &None::<i128>,
    );
    client.deposit_funds(&id, &subscriber, &100_000_000i128);

    env.set_time(T0 + INTERVAL);
    client.charge_subscription(&id);

    assert_eq!(client.get_merchant_balance(&merchant), 10_000_000i128);
}

#[test]
fn test_oracle_stale_quote_rejected() {
    let env = Env::new();
    env.set_time(T0 + INTERVAL);
    let (client, token, admin) = setup_contract(&env);
    let oracle_id = env.generate();
    env.set_price(2_000_000i128, T0); // stale vs max_age=1
    client.set_oracle_config(&admin, &true, &Some(oracle_id), &1u64);

    let subscriber = env.generate();
    let merchant = env.generate();
    env.token(token).mint(&subscriber, &2_000_000_000i128);
    let id = client.create_subscription(
        &subscriber,
        &merchant,
        &20_000_000i128,
        &INTERVAL,
        &false,
        &None::<i128>,
    );
    client.deposit_funds(&id, &subscriber, &100_000_000i128);

    let result = client.try_charge_subscription(&id);
    assert_eq!(result, Err(Error::OraclePriceStale));
}

#[test]
fn test_multi_token_balances_are_isolated_per_token() {
    let env = Env::new();
    env.set_time(T0);
    let client = env.register();

    let admin = env.generate();
    let token_a = env.generate();
    let token_b = env.generate();

    client.init(&token_a, &6, &admin, &1_000_000i128, &(7 * 24 * 60 * 60));
    client.add_accepted_token(&admin, &token_b, &6);

    let merchant = env.generate();
    let subscriber_a = env.generate();
    let subscriber_b = env.generate();
    env.token(token_a)
        .mint(&subscriber_a, &100_000_000i128);
    env.token(token_b)
        .mint(&subscriber_b, &100_000_000i128);

    let id_a = client.create_subscription(
        &subscriber_a,
        &merchant,
        &5_000_000i128,
        &INTERVAL,
        &false,
        &None::<i128>,
    );
    let id_b = client.create_subscription_with_token(
        &subscriber_b,
        &merchant,
        &token_b,
        &7_000_000i128,
        &INTERVAL,
        &false,
        &None::<i128>,
    );
    client.deposit_funds(&id_a, &subscriber_a, &20_000_000i128);
    client.deposit_funds(&id_b, &subscriber_b, &20_000_000i128);

    env.set_time(T0 + INTERVAL);
    client.charge_subscription(&id_a);
    client.charge_subscription(&id_b);

    assert_eq!(
        client.get_merchant_balance_by_token(&merchant, &token_a),
        5_000_000i128
    );
    assert_eq!(
        client.get_merchant_balance_by_token(&merchant, &token_b),
        7_000_000i128
    );
}

#[test]
fn test_create_subscription_with_unaccepted_token_fails() {
    let env = Env::new();
    let (client, _token, _admin) = setup_contract(&env);
    let subscriber = env.generate();
    let merchant = env.generate();
    let unsupported = env.generate();
    let result = client.try_create_subscription_with_token(
        &subscriber,
        &merchant,
        &unsupported,
        &1_000_000i128,
        &INTERVAL,
        &false,
        &None::<i128>,
    );
    assert_eq!(result, Err(Error::InvalidInput));
}

#[test]
fn test_merchant_token_bucket_reconciliation() {
    let env = Env::new();
    env.set_time(T0);
    let client = env.register();

    let admin = env.generate();
    let token_a = env.generate();
    let token_b = env.generate();
    let token_c = env.generate();

    client.init(&token_a, &6, &admin, &1_000_000i128, &(7 * 24 * 60 * 60));
    client.add_accepted_token(&admin, &token_b, &6);
    client.add_accepted_token(&admin, &token_c, &6);

    let merchant = env.generate();
    let subscriber_a = env.generate();
    let subscriber_b = env.generate();

    let token_a_admin = env.token(token_a);
    let token_b_admin = env.token(token_b);
    let token_a_client = env.token(token_a);
    let token_b_client = env.token(token_b);

    token_a_admin.mint(&subscriber_a, &100_000_000i128);
    token_b_admin.mint(&subscriber_b, &100_000_000i128);

    let id_a = client.create_subscription(
        &subscriber_a,
        &merchant,
        &5_000_000i128,
        &INTERVAL,
        &false,
        &None::<i128>,
    );

    let id_b = client.create_subscription_with_token(
        &subscriber_b,
        &merchant,
        &token_b,
        &7_000_000i128,
        &INTERVAL,
        &false,
        &None::<i128>,
    );

    client.deposit_funds(&id_a, &subscriber_a, &20_000_000i128);
    client.deposit_funds(&id_b, &subscriber_b, &20_000_000i128);

    assert_eq!(client.get_merchant_balance_by_token(&merchant, &token_a), 0);
    assert_eq!(client.get_merchant_balance_by_token(&merchant, &token_b), 0);
    assert_eq!(client.get_merchant_balance_by_token(&merchant, &token_c), 0);

    // Charge cycle 1
    env.set_time(T0 + INTERVAL);
    client.charge_subscription(&id_a);
    client.charge_subscription(&id_b);

    assert_eq!(
        client.get_merchant_balance_by_token(&merchant, &token_a),
        5_000_000i128
    );
    assert_eq!(
        client.get_merchant_balance_by_token(&merchant, &token_b),
        7_000_000i128
    );
    assert_eq!(client.get_merchant_balance_by_token(&merchant, &token_c), 0);

    // Partial withdraw Token A (test withdrawal invariant and isolation)
    client.withdraw_merchant_token_funds(&merchant, &token_a, &2_000_000i128);

    assert_eq!(
        client.get_merchant_balance_by_token(&merchant, &token_a),
        3_000_000i128
    );
    assert_eq!(
        client.get_merchant_balance_by_token(&merchant, &token_b),
        7_000_000i128
    );
    assert_eq!(client.get_merchant_balance_by_token(&merchant, &token_c), 0);

    assert_eq!(token_a_client.balance(&merchant), 2_000_000i128);
    assert_eq!(token_b_client.balance(&merchant), 0);

    // Charge cycle 2 (interleaved sequence)
    env.set_time(T0 + 2 * INTERVAL);
    client.charge_subscription(&id_a);
    client.charge_subscription(&id_b);

    assert_eq!(
        client.get_merchant_balance_by_token(&merchant, &token_a),
        8_000_000i128
    );
    assert_eq!(
        client.get_merchant_balance_by_token(&merchant, &token_b),
        14_000_000i128
    );

    // Full withdraw Token B
    client.withdraw_merchant_token_funds(&merchant, &token_b, &14_000_000i128);

    assert_eq!(
        client.get_merchant_balance_by_token(&merchant, &token_a),
        8_000_000i128
    );
    assert_eq!(client.get_merchant_balance_by_token(&merchant, &token_b), 0);
    assert_eq!(client.get_merchant_balance_by_token(&merchant, &token_c), 0);

    assert_eq!(token_a_client.balance(&merchant), 2_000_000i128);
    assert_eq!(token_b_client.balance(&merchant), 14_000_000i128);
}

// -- Usage limits -------------------------------------------------------------

#[test]
fn test_valid_usage_charging() {
    let (env, client, token, _) = setup_usage_env();
    let subscriber = env.generate();
    let merchant = env.generate();
    env.token(token).mint(&subscriber, &100_000_000i128);

    let sub_id =
        client.create_subscription(&subscriber, &merchant, &0i128, &INTERVAL, &true, &None);
    client.deposit_funds(&sub_id, &subscriber, &100_000_000i128);

    client.charge_usage_with_reference(&sub_id, &5_000_000i128, &text("ref1"));
    let sub = client.get_subscription(&sub_id);
    assert_eq!(sub.prepaid_balance, 95_000_000i128);
    assert_eq!(sub.lifetime_charged, 5_000_000i128);

    let merchant_bal = client.get_merchant_balance_by_token(&merchant, &token);
    assert_eq!(merchant_bal, 5_000_000i128);
}

#[test]
fn test_usage_disabled() {
    let (env, client, token, _) = setup_usage_env();
    let subscriber = env.generate();
    let merchant = env.generate();
    env.token(token).mint(&subscriber, &100_000_000i128);

    let sub_id = client.create_subscription(
        &subscriber,
        &merchant,
        &0i128,
        &INTERVAL,
        &false, // usage_enabled = false
        &None,
    );
    client.deposit_funds(&sub_id, &subscriber, &100_000_000i128);

    let result = client.try_charge_usage(&sub_id, &5_000_000i128);
    assert_eq!(result, Err(Error::UsageNotEnabled));
}

#[test]
fn test_zero_or_negative_usage() {
    let (env, client, token, _) = setup_usage_env();
    let subscriber = env.generate();
    let merchant = env.generate();
    env.token(token).mint(&subscriber, &100_000_000i128);

    let sub_id =
        client.create_subscription(&subscriber, &merchant, &0i128, &INTERVAL, &true, &None);
    client.deposit_funds(&sub_id, &subscriber, &100_000_000i128);

    let result = client.try_charge_usage(&sub_id, &0i128);
    assert_eq!(result, Err(Error::InvalidAmount));

    let result = client.try_charge_usage(&sub_id, &-5i128);
    assert_eq!(result, Err(Error::InvalidAmount));
}

#[test]
fn test_exact_prepaid_balance_usage() {
    let (env, client, token, _) = setup_usage_env();
    let subscriber = env.generate();
    let merchant = env.generate();
    env.token(token).mint(&subscriber, &10_000_000i128);

    let sub_id =
        client.create_subscription(&subscriber, &merchant, &0i128, &INTERVAL, &true, &None);
    client.deposit_funds(&sub_id, &subscriber, &10_000_000i128);

    client.charge_usage(&sub_id, &10_000_000i128);
    let sub = client.get_subscription(&sub_id);
    assert_eq!(sub.prepaid_balance, 0i128);
    assert_eq!(
        sub.status,
        SubscriptionStatus::InsufficientBalance
    );
}

#[test]
fn test_exact_lifetime_cap_boundary() {
    let (env, client, token, _) = setup_usage_env();
    let subscriber = env.generate();
    let merchant = env.generate();
    env.token(token).mint(&subscriber, &100_000_000i128);

    let sub_id = client.create_subscription(
        &subscriber,
        &merchant,
        &0i128,
        &INTERVAL,
        &true,
        &Some(50_000_000i128),
    );
    client.deposit_funds(&sub_id, &subscriber, &100_000_000i128);

    client.charge_usage(&sub_id, &50_000_000i128);
    let sub = client.get_subscription(&sub_id);
    assert_eq!(sub.lifetime_charged, 50_000_000i128);
    assert_eq!(sub.status, SubscriptionStatus::Cancelled);
}

#[test]
fn test_burst_usage_attempts() {
    let (env, client, token, _) = setup_usage_env();
    let subscriber = env.generate();
    let merchant = env.generate();
    env.token(token).mint(&subscriber, &100_000_000i128);

    let sub_id =
        client.create_subscription(&subscriber, &merchant, &0i128, &INTERVAL, &true, &None);
    client.deposit_funds(&sub_id, &subscriber, &100_000_000i128);

    client.configure_usage_limits(
        &merchant, &sub_id, &None,  // rate_limit_max_calls
        &60u64, // rate_window_secs
        &2u64,  // burst_min_interval_secs
        &None,  // usage_cap_units
    );

    client.charge_usage_with_reference(&sub_id, &1_000_000i128, &text("ref1"));

    // Exact same timestamp -> should fail with burst limit
    let result = client.try_charge_usage_with_reference(
        &sub_id,
        &1_000_000i128,
        &text("ref2"),
    );
    assert_eq!(result, Err(Error::BurstLimitExceeded));

    // 1 second later -> still fails
    env.set_time(USAGE_T0 + 1);
    let result = client.try_charge_usage_with_reference(
        &sub_id,
        &1_000_000i128,
        &text("ref3"),
    );
    assert_eq!(result, Err(Error::BurstLimitExceeded));

    // 2 seconds later -> succeeds
    env.set_time(USAGE_T0 + 2);
    client.charge_usage_with_reference(&sub_id, &1_000_000i128, &text("ref4"));
}

#[test]
fn test_rate_limit_violations() {
    let (env, client, token, _) = setup_usage_env();
    let subscriber = env.generate();
    let merchant = env.generate();
    env.token(token).mint(&subscriber, &100_000_000i128);

    let sub_id =
        client.create_subscription(&subscriber, &merchant, &0i128, &INTERVAL, &true, &None);
    client.deposit_funds(&sub_id, &subscriber, &100_000_000i128);

    client.configure_usage_limits(
        &merchant,
        &sub_id,
        &Some(3u32), // rate_limit_max_calls = 3
        &60u64,      // rate_window_secs = 60
        &0u64,       // burst_min_interval_secs
        &None,       // usage_cap_units
    );

    client.charge_usage_with_reference(&sub_id, &1_000_000i128, &text("ref1"));
    client.charge_usage_with_reference(&sub_id, &1_000_000i128, &text("ref2"));
    client.charge_usage_with_reference(&sub_id, &1_000_000i128, &text("ref3"));

    // 4th call should fail
    let result = client.try_charge_usage_with_reference(
        &sub_id,
        &1_000_000i128,
        &text("ref4"),
    );
    assert_eq!(result, Err(Error::RateLimitExceeded));

    // Move time forward past window
    env.set_time(USAGE_T0 + 60);
    client.charge_usage_with_reference(&sub_id, &1_000_000i128, &text("ref5"));
}

#[test]
fn test_replay_attacks() {
    let (env, client, token, _) = setup_usage_env();
    let subscriber = env.generate();
    let merchant = env.generate();
    env.token(token).mint(&subscriber, &100_000_000i128);

    let sub_id =
        client.create_subscription(&subscriber, &merchant, &0i128, &INTERVAL, &true, &None);
    client.deposit_funds(&sub_id, &subscriber, &100_000_000i128);

    client.charge_usage_with_reference(
        &sub_id,
        &1_000_000i128,
        &text("my-unique-ref"),
    );

    env.set_time(USAGE_T0 + 10);

    // Try same reference again
    let result = client.try_charge_usage_with_reference(
        &sub_id,
        &1_000_000i128,
        &text("my-unique-ref"),
    );
    assert_eq!(result, Err(Error::Replay));
}

#[test]
fn test_usage_cap_enforcement() {
    let (env, client, token, _) = setup_usage_env();
    let subscriber = env.generate();
    let merchant = env.generate();
    env.token(token).mint(&subscriber, &100_000_000i128);

    let sub_id =
        client.create_subscription(&subscriber, &merchant, &0i128, &INTERVAL, &true, &None);
    client.deposit_funds(&sub_id, &subscriber, &100_000_000i128);

    client.configure_usage_limits(
        &merchant,
        &sub_id,
        &None,                 // rate_limit_max_calls
        &60u64,                // rate_window_secs
        &0u64,                 // burst_min_interval_secs
        &Some(10_000_000i128), // usage_cap_units = 10m per period
    );

    client.charge_usage_with_reference(&sub_id, &6_000_000i128, &text("ref1"));

    // Another 5m should exceed the 10m cap
    let result = client.try_charge_usage_with_reference(
        &sub_id,
        &5_000_000i128,
        &text("ref2"),
    );
    assert_eq!(result, Err(Error::UsageCapExceeded));

    // Another 4m is perfectly fine
    client.charge_usage_with_reference(&sub_id, &4_000_000i128, &text("ref3"));

    // Moving to next period resets the cap
    env.set_time(USAGE_T0 + INTERVAL + 1);
    client.charge_usage_with_reference(&sub_id, &6_000_000i128, &text("ref4"));
}

// -- Underfunded charges ------------------------------------------------------

#[test]
fn repeated_failed_charges_preserve_financial_state() {
    let (env, client, _) = setup_grace_env();
    env.set_time(T0);

    let (id, _subscriber, merchant) = create_subscription(&env, &client);

    env.set_time(T0 + INTERVAL + 1);
    assert_eq!(
        client.try_charge_subscription(&id),
        Ok(ChargeExecutionResult::InsufficientBalance)
    );

    let first = client.get_subscription(&id);
    assert_eq!(first.status, SubscriptionStatus::GracePeriod);
    assert_eq!(first.prepaid_balance, 0);
    assert_eq!(first.last_payment_timestamp, T0);
    assert_eq!(first.lifetime_charged, 0);
    assert_eq!(client.get_merchant_balance(&merchant), 0);
    assert_eq!(
        client.get_sub_statements_offset(&id, &0, &10, &true).total,
        0
    );

    env.set_time(T0 + INTERVAL + 2);
    assert_eq!(
        client.try_charge_subscription(&id),
        Ok(ChargeExecutionResult::InsufficientBalance)
    );

    let second = client.get_subscription(&id);
    assert_eq!(second.status, SubscriptionStatus::GracePeriod);
    assert_eq!(second.prepaid_balance, 0);
    assert_eq!(second.last_payment_timestamp, T0);
    assert_eq!(second.lifetime_charged, 0);
    assert_eq!(client.get_merchant_balance(&merchant), 0);
    assert_eq!(
        client.get_sub_statements_offset(&id, &0, &10, &true).total,
        0
    );

    env.set_time(T0 + INTERVAL + GRACE_PERIOD + 1);
    assert_eq!(
        client.try_charge_subscription(&id),
        Ok(ChargeExecutionResult::InsufficientBalance)
    );

    let after = client.get_subscription(&id);
    assert_eq!(after.status, SubscriptionStatus::InsufficientBalance);
    assert_eq!(after.prepaid_balance, 0);
    assert_eq!(after.last_payment_timestamp, T0);
    assert_eq!(after.lifetime_charged, 0);
    assert_eq!(client.get_merchant_balance(&merchant), 0);
    assert_eq!(
        client.get_sub_statements_offset(&id, &0, &10, &true).total,
        0
    );
}

#[test]
fn resume_from_underfunded_state_requires_sufficient_topup() {
    let (env, client, token) = setup_grace_env();
    env.set_time(T0);

    let (id, subscriber, _merchant) = create_subscription(&env, &client);
    let token_admin = env.token(token);
    token_admin.mint(&subscriber, &20_000_000i128);

    env.set_time(T0 + INTERVAL + GRACE_PERIOD + 1);
    assert_eq!(
        client.try_charge_subscription(&id),
        Ok(ChargeExecutionResult::InsufficientBalance)
    );
    assert_eq!(
        client.get_subscription(&id).status,
        SubscriptionStatus::InsufficientBalance
    );

    client.deposit_funds(&id, &subscriber, &5_000_000i128);
    assert_eq!(
        client.try_resume_subscription(&id, &subscriber),
        Err(Error::InsufficientBalance)
    );

    client.deposit_funds(&id, &subscriber, &5_000_000i128);
    client.resume_subscription(&id, &subscriber);

    let resumed = client.get_subscription(&id);
    assert_eq!(resumed.status, SubscriptionStatus::Active);
    assert_eq!(resumed.prepaid_balance, AMOUNT);
}

#[test]
fn cancel_from_insufficient_balance_succeeds() {
    let (env, client, _) = setup_grace_env();
    env.set_time(T0);

    let (id, subscriber, _merchant) = create_subscription(&env, &client);

    env.set_time(T0 + INTERVAL + GRACE_PERIOD + 1);
    assert_eq!(
        client.try_charge_subscription(&id),
        Ok(ChargeExecutionResult::InsufficientBalance)
    );
    assert_eq!(
        client.get_subscription(&id).status,
        SubscriptionStatus::InsufficientBalance
    );

    client.cancel_subscription(&id, &subscriber);
    assert_eq!(
        client.get_subscription(&id).status,
        SubscriptionStatus::Cancelled
    );
}

// -- Merchant configuration ---------------------------------------------------

#[test]
fn test_merchant_config_governance_enforced() {
    let env = Env::new();

    let client = env.register();

    let merchant_a = env.generate();
    let redirect_url = text("https://stellabill.io/success");

    // Success: Merchant A can set their own config
    client.set_merchant_config(&merchant_a, &None, &redirect_url, &false);
    
    let config = client.get_merchant_config(&merchant_a).unwrap();
    assert_eq!(config.redirect_url, redirect_url);
}
