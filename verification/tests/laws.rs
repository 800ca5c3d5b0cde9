//! What holds across operations, on concrete values.
use subscription_vault::charge_core::charge_one;
use subscription_vault::events::{Effect, TokenTransfer};
use subscription_vault::metadata::MAX_METADATA_KEYS;
use subscription_vault::oracle::resolve_charge_amount;
use subscription_vault::reentrancy::{is_reentrancy_supported, Locks, ReentrancyGuard};
use subscription_vault::statements::{
    append_statement, compact_subscription_statements, get_compacted_aggregate,
    get_statements_by_subscription_cursor, get_statements_by_subscription_offset,
    get_total_statements, StatementBook,
};
use subscription_vault::tables::IdIndex;
use subscription_vault::types::{
    Address, AddressKind, BatchChargeResult, BillingChargeKind, BillingStatement, Bytes32,
    Call, ChargeExecutionResult, Error, OraclePrice, SubscriptionStatus,
};
use subscription_vault::vault::SubscriptionVault;

const DAY: u64 = 86_400;
const T0: u64 = 100 * DAY;
const NO_QUOTE: OraclePrice = OraclePrice { price: 0, timestamp: 0 };

fn account(n: u128) -> Address {
    Address { kind: AddressKind::Account, id: Bytes32 { hi: 0, lo: n } }
}

fn contract(n: u128) -> Address {
    Address { kind: AddressKind::Contract, id: Bytes32 { hi: 0, lo: n } }
}

fn vault_address() -> Address {
    contract(1)
}

fn token() -> Address {
    contract(2)
}

fn admin() -> Address {
    account(1)
}

fn alice() -> Address {
    account(10)
}

fn bob() -> Address {
    account(11)
}

fn shop() -> Address {
    account(20)
}

fn at(now: u64, who: Address) -> Call {
    Call { now, contract: vault_address(), signers: vec![who] }
}

fn text(s: &str) -> Vec<u8> {
    s.as_bytes().to_vec()
}

fn open_vault() -> SubscriptionVault {
    let mut v = SubscriptionVault::new();
    v.init(token(), 6, admin(), 10, 7 * DAY).unwrap();
    v
}

/// A funded daily subscription of `who` to the shop at 100 a day.
fn funded(v: &mut SubscriptionVault, who: Address, funds: i128) -> u32 {
    let id = v.create_subscription(&at(T0, who), who, shop(), 100, DAY, true, None).unwrap();
    v.deposit_funds(&at(T0, who), id, who, funds).unwrap();
    id
}

fn prepaid(v: &SubscriptionVault, id: u32) -> i128 {
    v.get_subscription(id).unwrap().prepaid_balance
}

fn status(v: &SubscriptionVault, id: u32) -> SubscriptionStatus {
    v.get_subscription(id).unwrap().status
}

/// What went into the vault less what went out of it.
fn net_inflow(v: &SubscriptionVault) -> i128 {
    let mut net = 0;
    for effect in v.outbox.effects.iter() {
        if let Effect::Transfer(t) = effect {
            assert_eq!(t.token, token());
            if t.to == vault_address() {
                net += t.amount;
            }
            if t.from == vault_address() {
                net -= t.amount;
            }
        }
    }
    net
}

/// Everything subscribers and the shop can claim.
fn claims(v: &SubscriptionVault) -> i128 {
    let mut total = v.get_merchant_balance(shop());
    for id in 0..v.get_subscription_count() {
        total += prepaid(v, id);
    }
    total
}

// -- Funds --------------------------------------------------------------------

#[test]
fn every_step_conserves_funds() {
    let mut v = open_vault();
    let a = funded(&mut v, alice(), 1_000);
    let b = funded(&mut v, bob(), 150);
    assert_eq!(claims(&v), 1_150);
    assert_eq!(net_inflow(&v), 1_150);

    v.charge_subscription(&at(T0 + DAY, shop()), a, &NO_QUOTE).unwrap();
    v.charge_usage(&at(T0 + DAY, shop()), a, 70).unwrap();
    v.charge_one_off(&at(T0 + DAY, shop()), b, shop(), 30).unwrap();
    assert_eq!((prepaid(&v, a), prepaid(&v, b)), (830, 120));
    assert_eq!(v.get_merchant_balance(shop()), 200);
    assert_eq!(claims(&v), net_inflow(&v));

    v.partial_refund(&at(T0 + DAY, admin()), admin(), a, alice(), 300).unwrap();
    assert_eq!(claims(&v), 850);
    assert_eq!(claims(&v), net_inflow(&v));

    v.withdraw_merchant_funds(&at(T0 + DAY, shop()), shop(), 90, 850).unwrap();
    v.merchant_refund(&at(T0 + DAY, shop()), shop(), bob(), token(), 60).unwrap();
    assert_eq!(v.get_merchant_balance(shop()), 50);
    assert_eq!(claims(&v), 700);
    assert_eq!(claims(&v), net_inflow(&v));

    v.cancel_subscription(&at(T0 + DAY, alice()), a, alice()).unwrap();
    v.withdraw_subscriber_funds(&at(T0 + DAY, alice()), a, alice()).unwrap();
    assert_eq!(prepaid(&v, a), 0);
    assert_eq!(claims(&v), 170);
    assert_eq!(claims(&v), net_inflow(&v));
}

#[test]
fn deposits_fetch_and_payouts_send_the_exact_amount() {
    let mut v = open_vault();
    let id = funded(&mut v, alice(), 500);
    let fetched = Effect::Transfer(TokenTransfer {
        token: token(),
        from: alice(),
        to: vault_address(),
        amount: 500,
    });
    assert!(v.outbox.effects.contains(&fetched));
    v.charge_one_off(&at(T0, shop()), id, shop(), 120).unwrap();
    v.withdraw_merchant_funds(&at(T0, shop()), shop(), 120, 500).unwrap();
    let sent = Effect::Transfer(TokenTransfer {
        token: token(),
        from: vault_address(),
        to: shop(),
        amount: 120,
    });
    assert!(v.outbox.effects.contains(&sent));
}

#[test]
fn balances_equal_accruals_less_payouts() {
    let mut v = open_vault();
    let id = funded(&mut v, alice(), 1_000);
    v.charge_subscription(&at(T0 + DAY, shop()), id, &NO_QUOTE).unwrap();
    v.charge_usage(&at(T0 + DAY, shop()), id, 40).unwrap();
    v.charge_one_off(&at(T0 + DAY, shop()), id, shop(), 5).unwrap();
    v.withdraw_merchant_funds(&at(T0 + DAY, shop()), shop(), 20, 1_000).unwrap();
    v.merchant_refund(&at(T0 + DAY, shop()), shop(), alice(), token(), 15).unwrap();

    let earnings = v.get_merchant_token_earnings(shop(), token());
    assert_eq!(earnings.accruals.interval, 100);
    assert_eq!(earnings.accruals.usage, 40);
    assert_eq!(earnings.accruals.one_off, 5);
    assert_eq!(earnings.withdrawals, 20);
    assert_eq!(earnings.refunds, 15);
    assert_eq!(v.get_merchant_total_earnings(shop()), vec![(token(), earnings)]);

    let snapshots = v.get_reconciliation_snapshot(shop()).unwrap();
    assert_eq!(snapshots.len(), 1);
    assert_eq!(snapshots[0].token, token());
    assert_eq!(snapshots[0].total_accruals, 145);
    assert_eq!(snapshots[0].total_withdrawals, 20);
    assert_eq!(snapshots[0].total_refunds, 15);
    assert_eq!(snapshots[0].computed_balance, 110);
    assert_eq!(snapshots[0].computed_balance, v.get_merchant_balance(shop()));
}

// -- Batches ------------------------------------------------------------------

#[test]
fn batches_join_and_report_by_position() {
    let ids: Vec<u32> = vec![1, 99, 0, 1];
    let mut whole = open_vault();
    let mut split = open_vault();
    for v in [&mut whole, &mut split] {
        funded(v, alice(), 1_000);
        funded(v, bob(), 50);
    }
    let call = at(T0 + DAY, admin());
    let all = whole.batch_charge(&call, &ids, &NO_QUOTE).unwrap();
    let mut parts = split.batch_charge(&call, &vec![1, 99], &NO_QUOTE).unwrap();
    parts.extend(split.batch_charge(&call, &vec![0, 1], &NO_QUOTE).unwrap());

    assert_eq!(all, parts);
    assert_eq!(
        all,
        vec![
            // Bob's balance does not cover the interval; the subscription goes into grace.
            BatchChargeResult { success: false, error_code: 1003 },
            BatchChargeResult { success: false, error_code: 404 },
            BatchChargeResult { success: true, error_code: 0 },
            BatchChargeResult { success: false, error_code: 1003 },
        ]
    );
    assert_eq!(whole.get_subscription(0), split.get_subscription(0));
    assert_eq!(whole.get_subscription(1), split.get_subscription(1));
    assert_eq!(status(&whole, 1), SubscriptionStatus::GracePeriod);
    assert_eq!(whole.outbox.effects, split.outbox.effects);
}

#[test]
fn batch_of_one_does_what_a_single_charge_does() {
    let mut batch = open_vault();
    let mut single = open_vault();
    let id = funded(&mut batch, alice(), 1_000);
    funded(&mut single, alice(), 1_000);
    let results = batch.batch_charge(&at(T0 + DAY, admin()), &vec![id], &NO_QUOTE).unwrap();
    let outcome = single.charge_subscription(&at(T0 + DAY, admin()), id, &NO_QUOTE);
    assert_eq!(results, vec![BatchChargeResult { success: true, error_code: 0 }]);
    assert_eq!(outcome, Ok(ChargeExecutionResult::Charged));
    assert_eq!(batch.get_subscription(id), single.get_subscription(id));
    assert_eq!(batch.outbox.effects, single.outbox.effects);
}

#[test]
fn an_empty_batch_changes_nothing() {
    let mut v = open_vault();
    let results = v.batch_charge(&at(T0, admin()), &Vec::new(), &NO_QUOTE).unwrap();
    assert!(results.is_empty());
    assert!(v.outbox.effects.is_empty());
}

#[test]
fn an_id_repeated_in_a_batch_is_charged_once() {
    let mut v = open_vault();
    let id = funded(&mut v, alice(), 1_000);
    let results = v.batch_charge(&at(T0 + DAY, admin()), &vec![id, id], &NO_QUOTE).unwrap();
    assert_eq!(results[0], BatchChargeResult { success: true, error_code: 0 });
    assert_eq!(results[1], BatchChargeResult { success: false, error_code: 1007 });
    assert_eq!(prepaid(&v, id), 900);
}

// -- Charging -----------------------------------------------------------------

#[test]
fn a_refused_call_changes_nothing() {
    let mut v = open_vault();
    let id = funded(&mut v, alice(), 1_000);
    let before = v.get_subscription(id);
    let effects = v.outbox.effects.len();
    let call = at(T0, bob());
    assert_eq!(v.cancel_subscription(&call, id, bob()), Err(Error::Forbidden));
    assert_eq!(v.deposit_funds(&call, id, bob(), 9), Err(Error::BelowMinimumTopup));
    assert_eq!(v.charge_one_off(&call, id, bob(), 5), Err(Error::Unauthorized));
    assert_eq!(
        v.charge_subscription(&call, id, &NO_QUOTE),
        Err(Error::IntervalNotElapsed)
    );
    assert_eq!(
        v.withdraw_subscriber_funds(&call, id, bob()),
        Err(Error::Forbidden)
    );
    assert_eq!(v.get_subscription(id), before);
    assert_eq!(v.outbox.effects.len(), effects);
}

#[test]
fn a_period_is_charged_once() {
    let mut v = open_vault();
    let id = funded(&mut v, alice(), 1_000);
    let call = at(T0 + DAY, shop());
    assert_eq!(v.charge_subscription(&call, id, &NO_QUOTE), Ok(ChargeExecutionResult::Charged));
    assert_eq!(v.charge_subscription(&call, id, &NO_QUOTE), Err(Error::Replay));
    let later = at(T0 + 2 * DAY - 1, shop());
    assert_eq!(v.charge_subscription(&later, id, &NO_QUOTE), Err(Error::Replay));
    assert_eq!(prepaid(&v, id), 900);
}

#[test]
fn a_retry_under_the_same_key_is_idle() {
    let mut v = open_vault();
    let id = funded(&mut v, alice(), 1_000);
    let key = Some(Bytes32 { hi: 7, lo: 9 });
    assert_eq!(charge_one(&mut v, id, T0 + DAY, key, &NO_QUOTE), Ok(()));
    let effects = v.outbox.effects.len();
    assert_eq!(charge_one(&mut v, id, T0 + DAY, key, &NO_QUOTE), Ok(()));
    assert_eq!(prepaid(&v, id), 900);
    assert_eq!(v.outbox.effects.len(), effects);
    // Another key does not get around the billing period.
    let other = Some(Bytes32 { hi: 7, lo: 10 });
    assert_eq!(charge_one(&mut v, id, T0 + DAY, other, &NO_QUOTE), Err(Error::Replay));
}

#[test]
fn a_usage_reference_is_charged_once() {
    let mut v = open_vault();
    let id = funded(&mut v, alice(), 1_000);
    let call = at(T0, shop());
    assert_eq!(v.charge_usage_with_reference(&call, id, 10, &text("r1")), Ok(()));
    assert_eq!(
        v.charge_usage_with_reference(&call, id, 10, &text("r1")),
        Err(Error::Replay)
    );
    assert_eq!(v.charge_usage_with_reference(&call, id, 10, &text("r2")), Ok(()));
    assert_eq!(prepaid(&v, id), 980);
}

#[test]
fn usage_stays_within_its_limits() {
    let mut v = open_vault();
    let id = funded(&mut v, alice(), 1_000);
    v.configure_usage_limits(&at(T0, shop()), shop(), id, Some(2), 600, 10, Some(50)).unwrap();
    let charge = |v: &mut SubscriptionVault, now: u64, amount: i128, reference: &str| {
        v.charge_usage_with_reference(&at(now, shop()), id, amount, &text(reference))
    };
    assert_eq!(charge(&mut v, T0, 20, "a"), Ok(()));
    assert_eq!(charge(&mut v, T0 + 9, 20, "b"), Err(Error::BurstLimitExceeded));
    assert_eq!(charge(&mut v, T0 + 10, 20, "b"), Ok(()));
    assert_eq!(charge(&mut v, T0 + 20, 5, "c"), Err(Error::RateLimitExceeded));
    assert_eq!(charge(&mut v, T0 + 600, 11, "c"), Err(Error::UsageCapExceeded));
    assert_eq!(charge(&mut v, T0 + 600, 10, "c"), Ok(()));
    assert_eq!(charge(&mut v, T0 + 1_200, 1, "d"), Err(Error::UsageCapExceeded));
    // The next billing period starts from nothing.
    assert_eq!(charge(&mut v, T0 + DAY, 50, "d"), Ok(()));
    assert_eq!(prepaid(&v, id), 900);
}

#[test]
fn a_lifetime_cap_ends_the_subscription_at_the_cap() {
    let mut v = open_vault();
    let id = v
        .create_subscription(&at(T0, alice()), alice(), shop(), 100, DAY, true, Some(250))
        .unwrap();
    v.deposit_funds(&at(T0, alice()), id, alice(), 1_000).unwrap();
    let mut now = T0;
    for _ in 0..2 {
        now += DAY;
        let result = v.charge_subscription(&at(now, shop()), id, &NO_QUOTE);
        assert_eq!(result, Ok(ChargeExecutionResult::Charged));
    }
    let info = v.get_cap_info(id).unwrap();
    assert_eq!(info.lifetime_charged, 200);
    assert_eq!(info.remaining_cap, Some(50));
    assert!(!info.cap_reached);
    // Fifty are left, an interval costs a hundred, and no interval is charged in part.
    let result = v.charge_subscription(&at(now + DAY, shop()), id, &NO_QUOTE);
    assert_eq!(result, Ok(ChargeExecutionResult::LifetimeCapReached));
    assert_eq!(status(&v, id), SubscriptionStatus::Cancelled);
    assert_eq!(prepaid(&v, id), 800);
}

#[test]
fn an_emptied_balance_blocks_further_usage() {
    let mut v = open_vault();
    let id = funded(&mut v, alice(), 100);
    v.charge_usage(&at(T0, shop()), id, 100).unwrap();
    assert_eq!(status(&v, id), SubscriptionStatus::InsufficientBalance);
    assert_eq!(
        v.charge_usage_with_reference(&at(T0, shop()), id, 1, &text("x")),
        Err(Error::NotActive)
    );
}

// -- Pauses and the lifecycle -------------------------------------------------

#[test]
fn a_merchant_pause_blocks_charges_and_keeps_each_status() {
    let mut v = open_vault();
    let a = funded(&mut v, alice(), 1_000);
    let b = funded(&mut v, bob(), 1_000);
    v.pause_subscription(&at(T0, bob()), b, bob()).unwrap();
    v.pause_merchant(&at(T0, shop()), shop()).unwrap();
    assert!(v.get_merchant_paused(shop()));
    assert_eq!(
        v.charge_subscription(&at(T0 + DAY, shop()), a, &NO_QUOTE),
        Err(Error::MerchantPaused)
    );
    assert_eq!(v.charge_usage(&at(T0 + DAY, shop()), a, 5), Err(Error::MerchantPaused));
    assert_eq!(status(&v, a), SubscriptionStatus::Active);
    assert_eq!(status(&v, b), SubscriptionStatus::Paused);
    v.unpause_merchant(&at(T0, shop()), shop()).unwrap();
    assert_eq!(
        v.charge_subscription(&at(T0 + DAY, shop()), a, &NO_QUOTE),
        Ok(ChargeExecutionResult::Charged)
    );
    assert_eq!(
        v.charge_subscription(&at(T0 + DAY, shop()), b, &NO_QUOTE),
        Err(Error::NotActive)
    );
}

#[test]
fn a_merchant_pause_blocks_nothing_but_charges() {
    let mut v = open_vault();
    let id = funded(&mut v, alice(), 1_000);
    v.charge_subscription(&at(T0 + DAY, shop()), id, &NO_QUOTE).unwrap();
    v.pause_merchant(&at(T0, shop()), shop()).unwrap();
    let now = T0 + 2 * DAY;
    assert_eq!(v.deposit_funds(&at(now, alice()), id, alice(), 10), Ok(()));
    assert_eq!(v.withdraw_merchant_funds(&at(now, shop()), shop(), 100, 1_010), Ok(()));
    assert_eq!(v.pause_subscription(&at(now, alice()), id, alice()), Ok(()));
    assert_eq!(v.resume_subscription(&at(now, alice()), id, alice()), Ok(()));
    assert_eq!(v.cancel_subscription(&at(now, alice()), id, alice()), Ok(()));
    assert_eq!(v.withdraw_subscriber_funds(&at(now, alice()), id, alice()), Ok(()));
    assert_eq!(claims(&v), 0);
}

#[test]
fn a_cancelled_subscription_stays_cancelled() {
    let mut v = open_vault();
    let id = funded(&mut v, alice(), 1_000);
    v.cancel_subscription(&at(T0, alice()), id, alice()).unwrap();
    let now = T0 + DAY;
    assert_eq!(
        v.resume_subscription(&at(now, alice()), id, alice()),
        Err(Error::InvalidStatusTransition)
    );
    assert_eq!(
        v.pause_subscription(&at(now, alice()), id, alice()),
        Err(Error::InvalidStatusTransition)
    );
    assert_eq!(v.charge_subscription(&at(now, shop()), id, &NO_QUOTE), Err(Error::NotActive));
    assert_eq!(v.charge_usage(&at(now, shop()), id, 1), Err(Error::NotActive));
    assert_eq!(v.charge_one_off(&at(now, shop()), id, shop(), 1), Err(Error::NotActive));
    assert_eq!(v.deposit_funds(&at(now, alice()), id, alice(), 10), Ok(()));
    assert_eq!(status(&v, id), SubscriptionStatus::Cancelled);
}

#[test]
fn an_underfunded_subscription_passes_through_grace() {
    let mut v = open_vault();
    let id = funded(&mut v, alice(), 10);
    let in_grace = v.charge_subscription(&at(T0 + DAY, shop()), id, &NO_QUOTE);
    assert_eq!(in_grace, Ok(ChargeExecutionResult::InsufficientBalance));
    assert_eq!(status(&v, id), SubscriptionStatus::GracePeriod);
    let last_second = T0 + DAY + 7 * DAY - 1;
    v.charge_subscription(&at(last_second, shop()), id, &NO_QUOTE).unwrap();
    assert_eq!(status(&v, id), SubscriptionStatus::GracePeriod);
    v.charge_subscription(&at(last_second + 1, shop()), id, &NO_QUOTE).unwrap();
    assert_eq!(status(&v, id), SubscriptionStatus::InsufficientBalance);
    assert_eq!(prepaid(&v, id), 10);
    assert_eq!(
        v.resume_subscription(&at(last_second + 1, alice()), id, alice()),
        Err(Error::InsufficientBalance)
    );
    v.deposit_funds(&at(last_second + 1, alice()), id, alice(), 90).unwrap();
    assert_eq!(v.resume_subscription(&at(last_second + 1, alice()), id, alice()), Ok(()));
    assert_eq!(
        v.charge_subscription(&at(last_second + 1, shop()), id, &NO_QUOTE),
        Ok(ChargeExecutionResult::Charged)
    );
    assert_eq!(prepaid(&v, id), 0);
}

// -- Plans --------------------------------------------------------------------

#[test]
fn a_plan_update_leaves_subscriptions_and_old_versions_alone() {
    let mut v = open_vault();
    let first = v.create_plan_template(&at(T0, shop()), shop(), 100, DAY, false, None).unwrap();
    let id = v.create_subscription_from_plan(&at(T0, alice()), alice(), first).unwrap();
    let before = v.get_subscription(id);
    let old_plan = v.get_plan_template(first);
    let second = v
        .update_plan_template(&at(T0, shop()), shop(), first, 150, 2 * DAY, true, Some(900))
        .unwrap();
    assert_eq!(v.get_subscription(id), before);
    assert_eq!(v.get_plan_template(first), old_plan);
    let plan = v.get_plan_template(second).unwrap();
    assert_eq!((plan.template_key, plan.version), (first, 2));
    assert_eq!((plan.amount, plan.interval_seconds), (150, 2 * DAY));
}

#[test]
fn a_migration_keeps_history_and_balance() {
    let mut v = open_vault();
    let first = v.create_plan_template(&at(T0, shop()), shop(), 100, DAY, false, None).unwrap();
    let id = v.create_subscription_from_plan(&at(T0, alice()), alice(), first).unwrap();
    v.deposit_funds(&at(T0, alice()), id, alice(), 1_000).unwrap();
    v.charge_subscription(&at(T0 + DAY, shop()), id, &NO_QUOTE).unwrap();
    let second = v
        .update_plan_template(&at(T0, shop()), shop(), first, 150, 2 * DAY, true, None)
        .unwrap();
    v.migrate_subscription_to_plan(&at(T0 + DAY, alice()), alice(), id, second).unwrap();
    let sub = v.get_subscription(id).unwrap();
    assert_eq!((sub.amount, sub.interval_seconds, sub.usage_enabled), (150, 2 * DAY, true));
    assert_eq!(sub.prepaid_balance, 900);
    assert_eq!(sub.lifetime_charged, 100);
    assert_eq!(sub.last_payment_timestamp, T0 + DAY);
    assert_eq!(
        v.migrate_subscription_to_plan(&at(T0 + DAY, alice()), alice(), id, first),
        Err(Error::InvalidInput)
    );
}

#[test]
fn a_plan_limit_counts_active_subscriptions_only() {
    let mut v = open_vault();
    let plan = v.create_plan_template(&at(T0, shop()), shop(), 100, DAY, false, None).unwrap();
    v.set_plan_max_active_subs(&at(T0, shop()), shop(), plan, 1).unwrap();
    let id = v.create_subscription_from_plan(&at(T0, alice()), alice(), plan).unwrap();
    assert_eq!(
        v.create_subscription_from_plan(&at(T0, alice()), alice(), plan),
        Err(Error::MaxConcurrentSubscriptionsReached)
    );
    assert!(v.create_subscription_from_plan(&at(T0, bob()), bob(), plan).is_ok());
    v.cancel_subscription(&at(T0, alice()), id, alice()).unwrap();
    assert!(v.create_subscription_from_plan(&at(T0, alice()), alice(), plan).is_ok());
}

// -- Credit limits ------------------------------------------------------------

#[test]
fn creations_and_deposits_stay_within_the_credit_limit() {
    let mut v = open_vault();
    v.set_subscriber_credit_limit(&at(T0, admin()), admin(), alice(), token(), 300).unwrap();
    let id = funded(&mut v, alice(), 150);
    assert_eq!(v.get_subscriber_exposure(alice(), token()), Ok(250));
    assert_eq!(
        v.create_subscription(&at(T0, alice()), alice(), shop(), 51, DAY, false, None),
        Err(Error::CreditLimitExceeded)
    );
    assert_eq!(
        v.deposit_funds(&at(T0, alice()), id, alice(), 51),
        Err(Error::CreditLimitExceeded)
    );
    assert_eq!(v.deposit_funds(&at(T0, alice()), id, alice(), 50), Ok(()));
    assert_eq!(v.get_subscriber_exposure(alice(), token()), Ok(300));
    // A subscription that is not active counts with its balance alone.
    v.pause_subscription(&at(T0, alice()), id, alice()).unwrap();
    assert_eq!(v.get_subscriber_exposure(alice(), token()), Ok(200));
    assert_eq!(v.get_subscriber_exposure(bob(), token()), Ok(0));
}

#[test]
fn a_limit_of_zero_is_no_limit() {
    let mut v = open_vault();
    let call = at(T0, admin());
    v.set_subscriber_credit_limit(&call, admin(), alice(), token(), 1).unwrap();
    assert_eq!(
        v.create_subscription(&at(T0, alice()), alice(), shop(), 100, DAY, true, None),
        Err(Error::CreditLimitExceeded)
    );
    v.set_subscriber_credit_limit(&call, admin(), alice(), token(), 0).unwrap();
    let id = funded(&mut v, alice(), 1_000_000);
    // A limit that is already exceeded blocks no charge, cancellation or withdrawal.
    v.set_subscriber_credit_limit(&call, admin(), alice(), token(), 1).unwrap();
    assert_eq!(
        v.charge_subscription(&at(T0 + DAY, shop()), id, &NO_QUOTE),
        Ok(ChargeExecutionResult::Charged)
    );
    assert_eq!(v.cancel_subscription(&at(T0, alice()), id, alice()), Ok(()));
    assert_eq!(v.withdraw_subscriber_funds(&at(T0, alice()), id, alice()), Ok(()));
}

#[test]
fn cancelling_returns_everything() {
    let mut v = open_vault();
    let id = funded(&mut v, alice(), 500);
    v.cancel_subscription(&at(T0, alice()), id, alice()).unwrap();
    v.partial_refund(&at(T0, admin()), admin(), id, alice(), 180).unwrap();
    v.withdraw_subscriber_funds(&at(T0, alice()), id, alice()).unwrap();
    let mut returned: Vec<i128> = Vec::new();
    for effect in v.outbox.effects.iter() {
        if let Effect::Transfer(t) = effect {
            if t.to == alice() {
                returned.push(t.amount);
            }
        }
    }
    assert_eq!(returned, vec![180, 320]);
    assert_eq!(prepaid(&v, id), 0);
}

#[test]
fn partial_refunds_add_up_to_one_refund_of_the_sum() {
    let mut twice = open_vault();
    let mut once = open_vault();
    let id = funded(&mut twice, alice(), 500);
    funded(&mut once, alice(), 500);
    let call = at(T0, admin());
    twice.partial_refund(&call, admin(), id, alice(), 120).unwrap();
    twice.partial_refund(&call, admin(), id, alice(), 80).unwrap();
    once.partial_refund(&call, admin(), id, alice(), 200).unwrap();
    assert_eq!(twice.get_subscription(id), once.get_subscription(id));
    assert_eq!(net_inflow(&twice), net_inflow(&once));
    assert_eq!(prepaid(&once, id), 300);
}

// -- Statements ---------------------------------------------------------------

/// Seven statements of subscription 3, with amounts 10, 20, ..., 70.
fn seven_statements() -> StatementBook {
    let mut book = StatementBook::new();
    for i in 0..7u64 {
        append_statement(
            &mut book,
            3,
            10 * (i as i128 + 1),
            shop(),
            BillingChargeKind::Interval,
            T0 + i * DAY,
            T0 + (i + 1) * DAY,
            T0 + (i + 1) * DAY,
        );
    }
    book
}

fn sequences(rows: &Vec<BillingStatement>) -> Vec<u32> {
    rows.iter().map(|row| row.sequence).collect()
}

#[test]
fn newest_first_reverses_oldest_first() {
    let book = seven_statements();
    let up = get_statements_by_subscription_offset(&book, 3, 0, 100, false).unwrap();
    let mut down = get_statements_by_subscription_offset(&book, 3, 0, 100, true).unwrap();
    assert_eq!(sequences(&up.statements), vec![0, 1, 2, 3, 4, 5, 6]);
    down.statements.reverse();
    assert_eq!(up.statements, down.statements);
    assert_eq!((up.total, down.total), (7, 7));
}

#[test]
fn pages_by_offset_join() {
    let book = seven_statements();
    for newest_first in [false, true] {
        let all = get_statements_by_subscription_offset(&book, 3, 0, 7, newest_first).unwrap();
        let mut joined: Vec<BillingStatement> = Vec::new();
        for offset in [0u32, 3, 6] {
            let page =
                get_statements_by_subscription_offset(&book, 3, offset, 3, newest_first).unwrap();
            joined.extend(page.statements);
        }
        assert_eq!(joined, all.statements);
    }
}

#[test]
fn a_cursor_continues_where_the_page_ended() {
    let book = seven_statements();
    for newest_first in [false, true] {
        let all = get_statements_by_subscription_offset(&book, 3, 0, 7, newest_first).unwrap();
        let mut joined: Vec<BillingStatement> = Vec::new();
        let mut cursor: Option<u32> = None;
        let mut pages = 0;
        loop {
            let page =
                get_statements_by_subscription_cursor(&book, 3, cursor, 2, newest_first).unwrap();
            joined.extend(page.statements);
            pages += 1;
            cursor = page.next_cursor;
            if cursor.is_none() {
                break;
            }
        }
        assert_eq!(joined, all.statements);
        assert_eq!(pages, 4);
    }
}

#[test]
fn compaction_keeps_recent_rows_and_the_total() {
    let mut book = seven_statements();
    let summary = compact_subscription_statements(&mut book, 3, Some(2)).unwrap();
    assert_eq!(summary.subscription_id, 3);
    assert_eq!(summary.pruned_count, 5);
    assert_eq!(summary.kept_count, 2);
    assert_eq!(summary.total_pruned_amount, 10 + 20 + 30 + 40 + 50);
    let aggregate = get_compacted_aggregate(&book, 3);
    assert_eq!(aggregate.pruned_count, 5);
    assert_eq!(aggregate.total_amount, 150);
    assert_eq!(aggregate.oldest_period_start, Some(T0));
    assert_eq!(aggregate.newest_period_end, Some(T0 + 5 * DAY));
    let rest = get_statements_by_subscription_offset(&book, 3, 0, 100, false).unwrap();
    assert_eq!(sequences(&rest.statements), vec![5, 6]);
    let kept: i128 = rest.statements.iter().map(|row| row.amount).sum();
    assert_eq!(kept + aggregate.total_amount, 280);

    // A second run finds nothing to prune.
    let again = compact_subscription_statements(&mut book, 3, Some(2)).unwrap();
    assert_eq!((again.pruned_count, again.kept_count), (0, 2));
    assert_eq!(again.total_pruned_amount, 0);
    assert_eq!(get_compacted_aggregate(&book, 3), aggregate);
}

#[test]
fn an_appended_statement_is_the_newest() {
    let mut book = seven_statements();
    append_statement(&mut book, 3, 999, shop(), BillingChargeKind::OneOff, T0, T0, T0 + 1);
    let page = get_statements_by_subscription_offset(&book, 3, 0, 1, true).unwrap();
    assert_eq!(
        page.statements,
        vec![BillingStatement {
            subscription_id: 3,
            sequence: 7,
            charged_at: T0 + 1,
            period_start: T0,
            period_end: T0,
            amount: 999,
            merchant: shop(),
            kind: BillingChargeKind::OneOff,
        }]
    );
    assert_eq!(get_total_statements(&book, 3), 8);
    assert_eq!(get_total_statements(&book, 4), 0);
}

#[test]
fn each_charge_leaves_one_statement() {
    let mut v = open_vault();
    let id = funded(&mut v, alice(), 1_000);
    v.charge_usage(&at(T0 + 5, shop()), id, 7).unwrap();
    v.charge_subscription(&at(T0 + DAY, shop()), id, &NO_QUOTE).unwrap();
    v.charge_one_off(&at(T0 + DAY + 9, shop()), id, shop(), 3).unwrap();
    let page = v.get_sub_statements_offset(id, 0, 10, false).unwrap();
    let rows: Vec<(u32, u64, u64, i128, BillingChargeKind)> = page
        .statements
        .iter()
        .map(|r| (r.sequence, r.period_start, r.period_end, r.amount, r.kind))
        .collect();
    assert_eq!(
        rows,
        vec![
            (0, T0 + 5, T0 + 5, 7, BillingChargeKind::Usage),
            (1, T0, T0 + DAY, 100, BillingChargeKind::Interval),
            (2, T0 + DAY + 9, T0 + DAY + 9, 3, BillingChargeKind::OneOff),
        ]
    );
}

/// What the statements and the aggregate of a subscription come to.
fn billed(v: &SubscriptionVault, id: u32) -> i128 {
    let page = v.get_sub_statements_offset(id, 0, 100, false).unwrap();
    let detailed: i128 = page.statements.iter().map(|row| row.amount).sum();
    detailed + v.get_stmt_compacted_aggregate(id).total_amount
}

#[test]
fn statements_account_for_everything_charged() {
    let mut v = open_vault();
    let id = funded(&mut v, alice(), 1_000);
    let charged = |v: &SubscriptionVault| v.get_subscription(id).unwrap().lifetime_charged;
    assert_eq!((billed(&v, id), charged(&v)), (0, 0));
    v.charge_subscription(&at(T0 + DAY, shop()), id, &NO_QUOTE).unwrap();
    v.charge_usage(&at(T0 + DAY, shop()), id, 33).unwrap();
    v.charge_one_off(&at(T0 + DAY, shop()), id, shop(), 7).unwrap();
    assert_eq!((billed(&v, id), charged(&v)), (140, 140));
    v.compact_billing_statements(&at(T0 + DAY, admin()), admin(), id, Some(1)).unwrap();
    v.partial_refund(&at(T0 + DAY, admin()), admin(), id, alice(), 100).unwrap();
    assert_eq!((billed(&v, id), charged(&v)), (140, 140));
    v.charge_subscription(&at(T0 + 2 * DAY, shop()), id, &NO_QUOTE).unwrap();
    assert_eq!((billed(&v, id), charged(&v)), (240, 240));
}

#[test]
fn without_a_policy_compaction_keeps_everything() {
    let mut book = seven_statements();
    let summary = compact_subscription_statements(&mut book, 3, None).unwrap();
    assert_eq!((summary.pruned_count, summary.kept_count), (0, 7));
    // A run that keeps nothing leaves the total in the aggregate.
    let summary = compact_subscription_statements(&mut book, 3, Some(0)).unwrap();
    assert_eq!((summary.pruned_count, summary.kept_count), (7, 0));
    assert_eq!(get_compacted_aggregate(&book, 3).total_amount, 280);
    let rest = get_statements_by_subscription_offset(&book, 3, 0, 100, false).unwrap();
    assert!(rest.statements.is_empty());
}

// -- Queries ------------------------------------------------------------------

#[test]
fn the_estimated_topup_pays_for_the_intervals() {
    let mut v = open_vault();
    let id = funded(&mut v, alice(), 130);
    let topup = v.estimate_topup_for_intervals(id, 4).unwrap();
    assert_eq!(topup, 270);
    v.deposit_funds(&at(T0, alice()), id, alice(), topup).unwrap();
    let mut now = T0;
    for _ in 0..4 {
        now += DAY;
        assert_eq!(
            v.charge_subscription(&at(now, shop()), id, &NO_QUOTE),
            Ok(ChargeExecutionResult::Charged)
        );
    }
    assert_eq!(prepaid(&v, id), 0);
    assert_eq!(v.estimate_topup_for_intervals(id, 0), Ok(0));
}

#[test]
fn listing_from_the_next_id_shows_the_rest() {
    let mut v = open_vault();
    for i in 0..7 {
        let who = if i % 2 == 0 { alice() } else { bob() };
        funded(&mut v, who, 10);
    }
    let mut seen: Vec<u32> = Vec::new();
    let mut start: u32 = 0;
    loop {
        let page = v.list_subscriptions_by_subscriber(alice(), start, 3).unwrap();
        seen.extend(page.subscription_ids);
        match page.next_start_id {
            Some(next) => start = next,
            None => {
                assert!(!page.has_next);
                break;
            }
        }
    }
    assert_eq!(seen, vec![0, 2, 4, 6]);
}

#[test]
fn indices_list_ids_in_the_order_of_creation() {
    let mut index = IdIndex::new();
    index.add_id(alice(), 4);
    index.add_id(bob(), 5);
    index.add_id(alice(), 9);
    assert_eq!(index.ids_of(alice()), vec![4, 9]);
    assert_eq!(index.ids_of(shop()), Vec::<u32>::new());

    let mut v = open_vault();
    let a = funded(&mut v, alice(), 10);
    let b = funded(&mut v, bob(), 20);
    assert_eq!(v.get_merchant_subscription_count(shop()), 2);
    assert_eq!(v.get_token_subscription_count(token()), 2);
    let subs = v.get_subscriptions_by_merchant(shop(), 1, 10).unwrap();
    assert_eq!(subs, vec![v.get_subscription(b).unwrap()]);
    let subs = v.get_subscriptions_by_token(token(), 0, 1);
    assert_eq!(subs, vec![v.get_subscription(a).unwrap()]);
}

// -- Metadata -----------------------------------------------------------------

#[test]
fn metadata_reads_back_what_was_set() {
    let mut v = open_vault();
    let id = funded(&mut v, alice(), 10);
    let call = at(T0, alice());
    v.set_metadata(&call, id, alice(), text("plan"), text("gold")).unwrap();
    v.set_metadata(&call, id, alice(), text("seat"), text("7")).unwrap();
    v.set_metadata(&call, id, alice(), text("plan"), text("silver")).unwrap();
    assert_eq!(v.get_metadata(id, text("plan")), Ok(text("silver")));
    assert_eq!(v.get_metadata(id, text("seat")), Ok(text("7")));
    assert_eq!(v.list_metadata_keys(id), Ok(vec![text("plan"), text("seat")]));
    v.delete_metadata(&call, id, alice(), text("plan")).unwrap();
    assert_eq!(v.get_metadata(id, text("plan")), Err(Error::NotFound));
    assert_eq!(v.get_metadata(id, text("seat")), Ok(text("7")));
    assert_eq!(v.list_metadata_keys(id), Ok(vec![text("seat")]));
}

#[test]
fn a_deleted_key_makes_room_for_another() {
    let mut v = open_vault();
    let id = funded(&mut v, alice(), 10);
    let call = at(T0, alice());
    for i in 0..MAX_METADATA_KEYS {
        v.set_metadata(&call, id, alice(), vec![b'a' + i as u8], text("x")).unwrap();
    }
    let extra = v.set_metadata(&call, id, alice(), text("extra"), text("x"));
    assert_eq!(extra, Err(Error::MetadataKeyLimitReached));
    // A known key may still change its value.
    assert_eq!(v.set_metadata(&call, id, alice(), text("a"), text("y")), Ok(()));
    v.delete_metadata(&call, id, alice(), text("b")).unwrap();
    assert_eq!(v.set_metadata(&call, id, alice(), text("extra"), text("x")), Ok(()));
}

// -- Locks --------------------------------------------------------------------

#[test]
fn a_lock_is_held_until_its_release() {
    assert!(is_reentrancy_supported());
    let mut locks = Locks::new();
    let deposit = text("deposit");
    let guard = ReentrancyGuard::lock(&mut locks, &deposit).unwrap();
    assert!(locks.is_held(&deposit));
    assert!(ReentrancyGuard::lock(&mut locks, &deposit).err() == Some(Error::Reentrancy));
    let other = ReentrancyGuard::lock(&mut locks, &text("withdraw")).unwrap();
    guard.release(&mut locks);
    assert!(!locks.is_held(&deposit));
    assert!(locks.is_held(&text("withdraw")));
    other.release(&mut locks);
    assert!(ReentrancyGuard::lock(&mut locks, &deposit).is_ok());
}

// -- Oracle -------------------------------------------------------------------

#[test]
fn a_quoted_amount_is_rounded_up() {
    let mut v = open_vault();
    let id = funded(&mut v, alice(), 10);
    let sub = v.get_subscription(id).unwrap();
    v.set_oracle_config(&at(T0, admin()), admin(), true, Some(contract(9)), 60).unwrap();
    let amount = |v: &SubscriptionVault, price: i128, timestamp: u64| {
        resolve_charge_amount(v, &sub, &OraclePrice { price, timestamp }, T0)
    };
    // 100 * 10^6 / 3 = 33333333.33..
    assert_eq!(amount(&v, 3, T0), Ok(33_333_334));
    assert_eq!(amount(&v, 100_000_000, T0), Ok(1));
    assert_eq!(amount(&v, 100_000_001, T0), Ok(1));
    assert_eq!(amount(&v, 50_000_000, T0 - 60), Ok(2));
    assert_eq!(amount(&v, 50_000_000, T0 - 61), Err(Error::OraclePriceStale));
    assert_eq!(amount(&v, 0, T0), Err(Error::OraclePriceInvalid));
    assert_eq!(amount(&v, -1, T0), Err(Error::OraclePriceInvalid));
    assert_eq!(amount(&v, 5, 0), Err(Error::OraclePriceUnavailable));
    assert_eq!(amount(&v, i128::MAX, T0), Err(Error::Overflow));
}
