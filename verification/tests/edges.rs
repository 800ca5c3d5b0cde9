//! Refusals, published events and boundary values of single operations.
use subscription_vault::admin::{get_grace_period, get_token_decimals, is_token_accepted};
use subscription_vault::events::{
    AdminRotatedEvent, BillingCompactedEvent, BlocklistAddedEvent, BlocklistRemovedEvent,
    ChargeFailedEvent, ContractSnapshotEvent, Effect, EmergencyStopDisabledEvent,
    EmergencyStopEnabledEvent, Event, FundsDepositedEvent, LifetimeCapReachedEvent,
    MerchantPausedEvent, MerchantRefundEvent, MerchantUnpausedEvent, MerchantWithdrawalEvent,
    MetadataDeletedEvent, MetadataSetEvent, MigrationExportEvent, OneOffChargedEvent,
    PartialRefundEvent, PlanTemplateUpdatedEvent, RecoveryEvent, SubscriptionCancelledEvent,
    SubscriptionChargedEvent, SubscriptionCreatedEvent, SubscriptionMigratedEvent,
    SubscriptionPausedEvent, SubscriptionResumedEvent, TokenTransfer, UsageStatementEvent,
};
use subscription_vault::merchant::{credit_merchant_balance, MAX_REDIRECT_URL_LENGTH};
use subscription_vault::metadata::{MAX_METADATA_KEY_LENGTH, MAX_METADATA_VALUE_LENGTH};
use subscription_vault::migration::{MAX_EXPORT_LIMIT, STORAGE_VERSION};
use subscription_vault::queries::MAX_SUBSCRIPTION_LIST_PAGE;
use subscription_vault::types::{
    AcceptedToken, Address, AddressKind, BillingChargeKind, Bytes32, Call,
    ChargeExecutionResult, Error, InsufficientBalanceError, OraclePrice, RecoveryReason,
    SubscriptionStatus,
};
use subscription_vault::vault::SubscriptionVault;

const DAY: u64 = 86_400;
const T0: u64 = 100 * DAY;
const NO_QUOTE: OraclePrice = OraclePrice { price: 0, timestamp: 0 };

fn account(n: u128) -> Address {
    Address { kind: AddressKind::Account, id: Bytes32 { hi: 0, lo: n } }
}

fn contract(n: u128) -> Address {
    Address { kind: AddressKind::Contract, id: Bytes32 { hi: 0, lo: n } }
}

fn vault_address() -> Address {
    contract(1)
}

fn token() -> Address {
    contract(2)
}

fn admin() -> Address {
    account(1)
}

fn alice() -> Address {
    account(10)
}

fn bob() -> Address {
    account(11)
}

fn shop() -> Address {
    account(20)
}

fn at(now: u64, who: Address) -> Call {
    Call { now, contract: vault_address(), signers: vec![who] }
}

fn text(s: &str) -> Vec<u8> {
    s.as_bytes().to_vec()
}

fn open_vault() -> SubscriptionVault {
    let mut v = SubscriptionVault::new();
    v.init(token(), 6, admin(), 10, 7 * DAY).unwrap();
    v
}

fn subscribed(v: &mut SubscriptionVault, who: Address, cap: Option<i128>) -> u32 {
    v.create_subscription(&at(T0, who), who, shop(), 100, DAY, true, cap).unwrap()
}

fn funded(v: &mut SubscriptionVault, who: Address, funds: i128) -> u32 {
    let id = subscribed(v, who, None);
    v.deposit_funds(&at(T0, who), id, who, funds).unwrap();
    id
}

fn prepaid(v: &SubscriptionVault, id: u32) -> i128 {
    v.get_subscription(id).unwrap().prepaid_balance
}

/// What the vault asked for since the last look.
fn news(v: &mut SubscriptionVault) -> Vec<Effect<Vec<u8>>> {
    v.outbox.effects.drain(..).collect()
}

fn published(event: Event<Vec<u8>>) -> Effect<Vec<u8>> {
    Effect::Publish(event)
}

// -- Before and during initialization ----------------------------------------

#[test]
fn a_fresh_vault_is_not_initialized() {
    let mut v = SubscriptionVault::new();
    let call = at(T0, admin());
    assert_eq!(v.get_admin(), Err(Error::NotInitialized));
    assert_eq!(v.get_min_topup(), Err(Error::NotInitialized));
    assert_eq!(get_grace_period(&v), Err(Error::NotInitialized));
    assert_eq!(v.set_min_topup(&call, admin(), 5), Err(Error::NotInitialized));
    assert_eq!(v.rotate_admin(&call, admin(), bob()), Err(Error::NotInitialized));
    assert_eq!(
        v.batch_charge(&call, &vec![0], &NO_QUOTE),
        Err(Error::NotInitialized)
    );
    assert_eq!(
        v.create_subscription(&call, admin(), shop(), 1, DAY, false, None),
        Err(Error::NotInitialized)
    );
    assert_eq!(v.deposit_funds(&call, 0, admin(), 100), Err(Error::NotInitialized));
    assert_eq!(
        v.create_plan_template(&at(T0, shop()), shop(), 1, DAY, false, None),
        Err(Error::NotInitialized)
    );
    assert_eq!(
        credit_merchant_balance(&mut v, &shop(), 5, BillingChargeKind::OneOff),
        Err(Error::NotInitialized)
    );
    assert_eq!(v.get_merchant_balance(shop()), 0);
    assert!(v.list_accepted_tokens().is_empty());
    assert!(!v.get_emergency_stop_status());
}

#[test]
fn initialization_runs_once() {
    let mut v = open_vault();
    assert_eq!(v.get_admin(), Ok(admin()));
    assert_eq!(v.get_min_topup(), Ok(10));
    assert_eq!(get_grace_period(&v), Ok(7 * DAY));
    assert_eq!(v.list_accepted_tokens(), vec![AcceptedToken { token: token(), decimals: 6 }]);
    assert_eq!(v.init(contract(5), 7, bob(), 1, 0), Err(Error::AlreadyInitialized));
    assert_eq!(v.get_admin(), Ok(admin()));
}

// -- Admin --------------------------------------------------------------------

#[test]
fn only_the_admin_administers() {
    let mut v = open_vault();
    let call = at(T0, bob());
    assert_eq!(v.set_min_topup(&call, bob(), 5), Err(Error::Unauthorized));
    assert_eq!(v.rotate_admin(&call, bob(), bob()), Err(Error::Unauthorized));
    assert_eq!(v.enable_emergency_stop(&call, bob()), Err(Error::Unauthorized));
    assert_eq!(v.disable_emergency_stop(&call, bob()), Err(Error::Unauthorized));
    assert_eq!(v.add_accepted_token(&call, bob(), contract(3), 7), Err(Error::Unauthorized));
    assert_eq!(v.remove_accepted_token(&call, bob(), token()), Err(Error::Unauthorized));
    assert_eq!(v.set_billing_retention(&call, bob(), 1), Err(Error::Unauthorized));
    assert_eq!(
        v.compact_billing_statements(&call, bob(), 0, None),
        Err(Error::Unauthorized)
    );
    assert_eq!(
        v.set_oracle_config(&call, bob(), false, None, 0),
        Err(Error::Unauthorized)
    );
    assert_eq!(
        v.set_subscriber_credit_limit(&call, bob(), alice(), token(), 5),
        Err(Error::Unauthorized)
    );
    assert_eq!(v.export_contract_snapshot(&call, bob()), Err(Error::Unauthorized));
    assert_eq!(
        v.recover_stranded_funds(&call, bob(), bob(), 5, RecoveryReason::DeprecatedFlow),
        Err(Error::Unauthorized)
    );
    assert!(v.outbox.effects.is_empty());
}

#[test]
fn the_admin_role_moves() {
    let mut v = open_vault();
    v.rotate_admin(&at(T0, admin()), admin(), bob()).unwrap();
    assert_eq!(v.get_admin(), Ok(bob()));
    assert_eq!(v.set_min_topup(&at(T0, admin()), admin(), 5), Err(Error::Unauthorized));
    assert_eq!(v.set_min_topup(&at(T0, bob()), bob(), 5), Ok(()));
    assert_eq!(v.get_min_topup(), Ok(5));
    assert_eq!(
        news(&mut v),
        vec![published(Event::AdminRotated(AdminRotatedEvent {
            old_admin: admin(),
            new_admin: bob(),
            timestamp: T0,
        }))]
    );
}

#[test]
fn recovery_needs_a_positive_amount() {
    let mut v = open_vault();
    let call = at(T0, admin());
    let reason = RecoveryReason::AccidentalTransfer;
    for amount in [0, -1] {
        assert_eq!(
            v.recover_stranded_funds(&call, admin(), bob(), amount, reason),
            Err(Error::InvalidRecoveryAmount)
        );
    }
    v.recover_stranded_funds(&call, admin(), bob(), 1, reason).unwrap();
    assert_eq!(
        news(&mut v),
        vec![published(Event::Recovery(RecoveryEvent {
            admin: admin(),
            recipient: bob(),
            amount: 1,
            reason,
            timestamp: T0,
        }))]
    );
}

#[test]
fn the_emergency_stop_blocks_critical_operations() {
    let mut v = open_vault();
    let id = funded(&mut v, alice(), 1_000);
    news(&mut v);
    v.enable_emergency_stop(&at(T0, admin()), admin()).unwrap();
    v.enable_emergency_stop(&at(T0 + 1, admin()), admin()).unwrap();
    assert!(v.get_emergency_stop_status());
    let now = T0 + DAY;
    assert_eq!(
        v.create_subscription(&at(now, bob()), bob(), shop(), 1, DAY, false, None),
        Err(Error::EmergencyStopActive)
    );
    assert_eq!(
        v.create_subscription_with_token(
            &at(now, bob()), bob(), shop(), token(), 1, DAY, false, None
        ),
        Err(Error::EmergencyStopActive)
    );
    assert_eq!(
        v.deposit_funds(&at(now, alice()), id, alice(), 100),
        Err(Error::EmergencyStopActive)
    );
    assert_eq!(
        v.charge_subscription(&at(now, shop()), id, &NO_QUOTE),
        Err(Error::EmergencyStopActive)
    );
    assert_eq!(v.charge_usage(&at(now, shop()), id, 1), Err(Error::EmergencyStopActive));
    assert_eq!(
        v.batch_charge(&at(now, admin()), &vec![id], &NO_QUOTE),
        Err(Error::EmergencyStopActive)
    );
    v.disable_emergency_stop(&at(now, admin()), admin()).unwrap();
    v.disable_emergency_stop(&at(now, admin()), admin()).unwrap();
    assert_eq!(
        news(&mut v),
        vec![
            published(Event::EmergencyStopEnabled(EmergencyStopEnabledEvent {
                admin: admin(),
                timestamp: T0,
            })),
            published(Event::EmergencyStopDisabled(EmergencyStopDisabledEvent {
                admin: admin(),
                timestamp: now,
            })),
        ]
    );
    assert_eq!(
        v.charge_subscription(&at(now, shop()), id, &NO_QUOTE),
        Ok(ChargeExecutionResult::Charged)
    );
}

#[test]
fn tokens_are_registered_once_and_the_default_stays() {
    let mut v = open_vault();
    let call = at(T0, admin());
    let other = contract(3);
    v.add_accepted_token(&call, admin(), other, 7).unwrap();
    v.add_accepted_token(&call, admin(), other, 9).unwrap();
    assert_eq!(
        v.list_accepted_tokens(),
        vec![
            AcceptedToken { token: token(), decimals: 6 },
            AcceptedToken { token: other, decimals: 9 },
        ]
    );
    assert_eq!(get_token_decimals(&v, &other), Some(9));
    assert_eq!(get_token_decimals(&v, &contract(4)), None);
    assert_eq!(
        v.remove_accepted_token(&call, admin(), token()),
        Err(Error::InvalidInput)
    );
    v.remove_accepted_token(&call, admin(), other).unwrap();
    assert!(!is_token_accepted(&v, &other));
    assert!(is_token_accepted(&v, &token()));
    assert_eq!(
        v.create_subscription_with_token(
            &at(T0, alice()), alice(), shop(), other, 1, DAY, false, None
        ),
        Err(Error::InvalidInput)
    );
    assert_eq!(
        v.create_plan_template_with_token(
            &at(T0, shop()), shop(), other, 1, DAY, false, None
        ),
        Err(Error::InvalidInput)
    );
}

// -- Creation and deposits ----------------------------------------------------

#[test]
fn a_creation_is_checked_and_published() {
    let mut v = open_vault();
    let call = at(T0, alice());
    let create = |v: &mut SubscriptionVault, amount: i128, cap: Option<i128>| {
        v.create_subscription(&call, alice(), shop(), amount, DAY, false, cap)
    };
    assert_eq!(create(&mut v, -1, None), Err(Error::InvalidAmount));
    assert_eq!(create(&mut v, 100, Some(0)), Err(Error::InvalidAmount));
    assert_eq!(create(&mut v, 100, Some(-5)), Err(Error::InvalidAmount));
    assert_eq!(create(&mut v, 0, Some(1)), Ok(0));
    assert_eq!(
        news(&mut v),
        vec![published(Event::SubscriptionCreated(SubscriptionCreatedEvent {
            subscription_id: 0,
            subscriber: alice(),
            merchant: shop(),
            amount: 0,
            interval_seconds: DAY,
            lifetime_cap: Some(1),
        }))]
    );
    assert_eq!(v.get_subscription(1), Err(Error::NotFound));
}

#[test]
fn a_deposit_is_checked_and_published() {
    let mut v = open_vault();
    let id = subscribed(&mut v, alice(), None);
    news(&mut v);
    let call = at(T0, alice());
    assert_eq!(v.deposit_funds(&call, id, alice(), 9), Err(Error::BelowMinimumTopup));
    assert_eq!(v.deposit_funds(&call, 7, alice(), 10), Err(Error::NotFound));
    v.deposit_funds(&call, id, alice(), 10).unwrap();
    assert_eq!(
        news(&mut v),
        vec![
            Effect::Transfer(TokenTransfer {
                token: token(),
                from: alice(),
                to: vault_address(),
                amount: 10,
            }),
            published(Event::FundsDeposited(FundsDepositedEvent {
                subscription_id: id,
                subscriber: alice(),
                amount: 10,
                prepaid_balance: 10,
            })),
        ]
    );
    assert_eq!(v.deposit_funds(&call, id, alice(), i128::MAX), Err(Error::Overflow));
    v.set_min_topup(&at(T0, admin()), admin(), -100).unwrap();
    assert_eq!(v.deposit_funds(&call, id, alice(), -1), Err(Error::InvalidAmount));
    assert_eq!(prepaid(&v, id), 10);
}

// -- Lifecycle ----------------------------------------------------------------

#[test]
fn status_changes_are_published() {
    let mut v = open_vault();
    let id = funded(&mut v, alice(), 40);
    news(&mut v);
    v.pause_subscription(&at(T0, alice()), id, alice()).unwrap();
    v.resume_subscription(&at(T0, shop()), id, shop()).unwrap();
    v.cancel_subscription(&at(T0, shop()), id, shop()).unwrap();
    assert_eq!(
        news(&mut v),
        vec![
            published(Event::SubscriptionPaused(SubscriptionPausedEvent {
                subscription_id: id,
                authorizer: alice(),
            })),
            published(Event::SubscriptionResumed(SubscriptionResumedEvent {
                subscription_id: id,
                authorizer: shop(),
            })),
            published(Event::SubscriptionCancelled(SubscriptionCancelledEvent {
                subscription_id: id,
                authorizer: shop(),
                refund_amount: 40,
            })),
        ]
    );
}

#[test]
fn strangers_change_no_status() {
    let mut v = open_vault();
    let id = subscribed(&mut v, alice(), None);
    let call = at(T0, bob());
    assert_eq!(v.pause_subscription(&call, id, bob()), Err(Error::Forbidden));
    assert_eq!(v.resume_subscription(&call, id, bob()), Err(Error::Forbidden));
    assert_eq!(v.cancel_subscription(&call, id, bob()), Err(Error::Forbidden));
    assert_eq!(v.cancel_subscription(&call, 9, bob()), Err(Error::NotFound));
}

#[test]
fn only_a_cancelled_subscription_returns_its_balance() {
    let mut v = open_vault();
    let id = funded(&mut v, alice(), 40);
    let call = at(T0, alice());
    assert_eq!(
        v.withdraw_subscriber_funds(&call, id, alice()),
        Err(Error::InvalidStatusTransition)
    );
    v.cancel_subscription(&call, id, alice()).unwrap();
    news(&mut v);
    v.withdraw_subscriber_funds(&call, id, alice()).unwrap();
    // Nothing is left to withdraw, and nothing is transferred.
    v.withdraw_subscriber_funds(&call, id, alice()).unwrap();
    assert_eq!(
        news(&mut v),
        vec![Effect::Transfer(TokenTransfer {
            token: token(),
            from: vault_address(),
            to: alice(),
            amount: 40,
        })]
    );
}

#[test]
fn a_partial_refund_is_checked_and_published() {
    let mut v = open_vault();
    let id = funded(&mut v, alice(), 40);
    news(&mut v);
    let call = at(T0, admin());
    let refund = |v: &mut SubscriptionVault, who: Address, to: Address, amount: i128| {
        v.partial_refund(&at(T0, who), who, id, to, amount)
    };
    assert_eq!(refund(&mut v, bob(), alice(), 5), Err(Error::Unauthorized));
    assert_eq!(refund(&mut v, admin(), bob(), 5), Err(Error::Unauthorized));
    assert_eq!(refund(&mut v, admin(), alice(), 0), Err(Error::InvalidAmount));
    assert_eq!(refund(&mut v, admin(), alice(), 41), Err(Error::InsufficientBalance));
    assert_eq!(v.partial_refund(&call, admin(), 9, alice(), 5), Err(Error::NotFound));
    assert_eq!(refund(&mut v, admin(), alice(), 15), Ok(()));
    assert_eq!(prepaid(&v, id), 25);
    assert_eq!(
        news(&mut v),
        vec![
            Effect::Transfer(TokenTransfer {
                token: token(),
                from: vault_address(),
                to: alice(),
                amount: 15,
            }),
            published(Event::PartialRefund(PartialRefundEvent {
                subscription_id: id,
                subscriber: alice(),
                amount: 15,
                timestamp: T0,
            })),
        ]
    );
}

// -- Charges ------------------------------------------------------------------

#[test]
fn an_interval_charge_is_published() {
    let mut v = open_vault();
    let id = subscribed(&mut v, alice(), Some(100));
    v.deposit_funds(&at(T0, alice()), id, alice(), 150).unwrap();
    news(&mut v);
    v.charge_subscription(&at(T0 + DAY, shop()), id, &NO_QUOTE).unwrap();
    assert_eq!(
        news(&mut v),
        vec![
            published(Event::SubscriptionCharged(SubscriptionChargedEvent {
                subscription_id: id,
                merchant: shop(),
                amount: 100,
                lifetime_charged: 100,
            })),
            published(Event::LifetimeCapReached(LifetimeCapReachedEvent {
                subscription_id: id,
                lifetime_cap: 100,
                lifetime_charged: 100,
                timestamp: T0 + DAY,
            })),
        ]
    );
    assert_eq!(v.get_subscription(id).unwrap().status, SubscriptionStatus::Cancelled);
}

#[test]
fn a_failed_charge_is_published_with_its_shortage() {
    let mut v = open_vault();
    let id = funded(&mut v, alice(), 30);
    news(&mut v);
    assert_eq!(
        v.charge_subscription(&at(T0 + DAY, shop()), id, &NO_QUOTE),
        Ok(ChargeExecutionResult::InsufficientBalance)
    );
    let shortage = InsufficientBalanceError { available: 30, required: 100 };
    assert_eq!(shortage.shortfall(), 70);
    assert_eq!(
        news(&mut v),
        vec![published(Event::ChargeFailed(ChargeFailedEvent {
            subscription_id: id,
            merchant: shop(),
            shortage,
            status: SubscriptionStatus::GracePeriod,
            timestamp: T0 + DAY,
        }))]
    );
    assert_eq!(v.get_merchant_balance(shop()), 0);
    assert_eq!(v.get_sub_statements_offset(id, 0, 5, true).unwrap().total, 0);
}

#[test]
fn an_unpaid_charge_of_an_unknown_subscription_is_not_found() {
    let mut v = open_vault();
    let call = at(T0, shop());
    assert_eq!(v.charge_subscription(&call, 3, &NO_QUOTE), Err(Error::NotFound));
    assert_eq!(v.charge_usage(&call, 3, 5), Err(Error::NotFound));
    assert_eq!(v.charge_one_off(&call, 3, shop(), 5), Err(Error::NotFound));
}

#[test]
fn a_charge_at_the_end_of_time_overflows() {
    let mut v = open_vault();
    let call = at(T0, alice());
    let id = v.create_subscription(&call, alice(), shop(), 1, u64::MAX, false, None).unwrap();
    assert_eq!(
        v.charge_subscription(&at(u64::MAX, shop()), id, &NO_QUOTE),
        Err(Error::Overflow)
    );
    assert_eq!(v.get_next_charge_info(id).unwrap().next_charge_timestamp, u64::MAX);
}

#[test]
fn a_usage_charge_is_checked_and_published() {
    let mut v = open_vault();
    let plain = v
        .create_subscription(&at(T0, bob()), bob(), shop(), 100, DAY, false, None)
        .unwrap();
    let id = funded(&mut v, alice(), 50);
    news(&mut v);
    let call = at(T0, shop());
    assert_eq!(v.charge_usage(&call, plain, 5), Err(Error::UsageNotEnabled));
    assert_eq!(v.charge_usage(&call, id, 0), Err(Error::InvalidAmount));
    assert_eq!(v.charge_usage(&call, id, 51), Err(Error::InsufficientPrepaidBalance));
    v.charge_usage(&call, id, 20).unwrap();
    assert_eq!(
        news(&mut v),
        vec![published(Event::UsageStatement(UsageStatementEvent {
            subscription_id: id,
            merchant: shop(),
            token: token(),
            usage_amount: 20,
            reference: text("usage"),
            timestamp: T0,
        }))]
    );
    assert_eq!(v.get_subscription(id).unwrap().lifetime_charged, 20);
}

#[test]
fn a_usage_charge_beyond_the_cap_cancels() {
    let mut v = open_vault();
    let id = subscribed(&mut v, alice(), Some(30));
    v.deposit_funds(&at(T0, alice()), id, alice(), 100).unwrap();
    assert_eq!(v.charge_usage(&at(T0, shop()), id, 31), Ok(()));
    let sub = v.get_subscription(id).unwrap();
    assert_eq!(sub.status, SubscriptionStatus::Cancelled);
    assert_eq!((sub.prepaid_balance, sub.lifetime_charged), (100, 0));
}

#[test]
fn usage_limits_belong_to_the_merchant() {
    let mut v = open_vault();
    let id = subscribed(&mut v, alice(), None);
    assert_eq!(
        v.configure_usage_limits(&at(T0, bob()), bob(), id, None, 0, 0, None),
        Err(Error::Unauthorized)
    );
    assert_eq!(
        v.configure_usage_limits(&at(T0, shop()), shop(), 8, None, 0, 0, None),
        Err(Error::NotFound)
    );
}

#[test]
fn a_one_off_charge_is_checked_and_published() {
    let mut v = open_vault();
    let id = subscribed(&mut v, alice(), Some(30));
    v.deposit_funds(&at(T0, alice()), id, alice(), 40).unwrap();
    news(&mut v);
    let call = at(T0, shop());
    assert_eq!(v.charge_one_off(&at(T0, bob()), id, bob(), 5), Err(Error::Unauthorized));
    assert_eq!(v.charge_one_off(&call, id, shop(), 0), Err(Error::InvalidAmount));
    assert_eq!(
        v.charge_one_off(&call, id, shop(), 41),
        Err(Error::InsufficientPrepaidBalance)
    );
    assert_eq!(v.charge_one_off(&call, id, shop(), 31), Err(Error::LifetimeCapReached));
    v.pause_subscription(&at(T0, alice()), id, alice()).unwrap();
    news(&mut v);
    v.charge_one_off(&call, id, shop(), 12).unwrap();
    assert_eq!(
        news(&mut v),
        vec![published(Event::OneOffCharged(OneOffChargedEvent {
            subscription_id: id,
            merchant: shop(),
            amount: 12,
        }))]
    );
    let sub = v.get_subscription(id).unwrap();
    assert_eq!((sub.prepaid_balance, sub.lifetime_charged), (28, 12));
}

// -- Merchants ----------------------------------------------------------------

#[test]
fn a_withdrawal_is_checked_and_published() {
    let mut v = open_vault();
    let id = funded(&mut v, alice(), 100);
    v.charge_one_off(&at(T0, shop()), id, shop(), 60).unwrap();
    news(&mut v);
    let call = at(T0, shop());
    let withdraw = |v: &mut SubscriptionVault, amount: i128, custody: i128| {
        v.withdraw_merchant_funds(&call, shop(), amount, custody)
    };
    assert_eq!(withdraw(&mut v, 0, 100), Err(Error::InvalidAmount));
    assert_eq!(withdraw(&mut v, 61, 100), Err(Error::InsufficientBalance));
    // The books allow it, but the vault does not hold the tokens.
    assert_eq!(withdraw(&mut v, 60, 59), Err(Error::InsufficientBalance));
    assert_eq!(
        v.withdraw_merchant_funds(&at(T0, bob()), bob(), 5, 100),
        Err(Error::NotFound)
    );
    assert_eq!(
        v.withdraw_merchant_token_funds(&call, shop(), contract(8), 5, 100),
        Err(Error::InvalidInput)
    );
    assert_eq!(withdraw(&mut v, 25, 100), Ok(()));
    assert_eq!(
        news(&mut v),
        vec![
            published(Event::MerchantWithdrawal(MerchantWithdrawalEvent {
                merchant: shop(),
                token: token(),
                amount: 25,
                remaining_balance: 35,
            })),
            Effect::Transfer(TokenTransfer {
                token: token(),
                from: vault_address(),
                to: shop(),
                amount: 25,
            }),
        ]
    );
}

#[test]
fn a_merchant_refund_is_checked_and_published() {
    let mut v = open_vault();
    let id = funded(&mut v, alice(), 100);
    v.charge_one_off(&at(T0, shop()), id, shop(), 60).unwrap();
    news(&mut v);
    let call = at(T0, shop());
    let refund = |v: &mut SubscriptionVault, amount: i128| {
        v.merchant_refund(&call, shop(), alice(), token(), amount)
    };
    assert_eq!(refund(&mut v, 0), Err(Error::InvalidAmount));
    assert_eq!(refund(&mut v, 61), Err(Error::InsufficientBalance));
    assert_eq!(refund(&mut v, 10), Ok(()));
    assert_eq!(v.get_merchant_balance(shop()), 50);
    assert_eq!(
        news(&mut v),
        vec![
            published(Event::MerchantRefund(MerchantRefundEvent {
                merchant: shop(),
                subscriber: alice(),
                token: token(),
                amount: 10,
            })),
            Effect::Transfer(TokenTransfer {
                token: token(),
                from: vault_address(),
                to: alice(),
                amount: 10,
            }),
        ]
    );
}

#[test]
fn a_merchant_pause_is_published() {
    let mut v = open_vault();
    v.pause_merchant(&at(T0, shop()), shop()).unwrap();
    v.unpause_merchant(&at(T0 + 1, shop()), shop()).unwrap();
    assert!(!v.get_merchant_paused(shop()));
    assert_eq!(
        news(&mut v),
        vec![
            published(Event::MerchantPaused(MerchantPausedEvent {
                merchant: shop(),
                timestamp: T0,
            })),
            published(Event::MerchantUnpaused(MerchantUnpausedEvent {
                merchant: shop(),
                timestamp: T0 + 1,
            })),
        ]
    );
}

#[test]
fn a_redirect_url_has_a_largest_length() {
    let mut v = open_vault();
    let call = at(T0, shop());
    let longest = vec![b'u'; MAX_REDIRECT_URL_LENGTH];
    let longer = vec![b'u'; MAX_REDIRECT_URL_LENGTH + 1];
    assert_eq!(v.get_merchant_config(shop()), None);
    assert_eq!(
        v.set_merchant_config(&call, shop(), None, longer, true),
        Err(Error::InvalidAmount)
    );
    v.set_merchant_config(&call, shop(), Some(bob()), longest.clone(), true).unwrap();
    let config = v.get_merchant_config(shop()).unwrap();
    assert_eq!(config.fee_address, Some(bob()));
    assert_eq!(config.redirect_url, longest);
    assert!(config.is_paused);
}

// -- Plans --------------------------------------------------------------------

#[test]
fn plan_operations_are_checked_and_published() {
    let mut v = open_vault();
    let call = at(T0, shop());
    assert_eq!(
        v.create_plan_template(&call, shop(), 1, DAY, false, Some(0)),
        Err(Error::InvalidAmount)
    );
    let first = v.create_plan_template(&call, shop(), 100, DAY, false, None).unwrap();
    let foreign = v.create_plan_template(&call, shop(), 70, DAY, false, None).unwrap();
    assert_eq!(v.get_plan_template(9), Err(Error::NotFound));
    assert_eq!(v.get_plan_max_active_subs(first), 0);
    assert_eq!(
        v.set_plan_max_active_subs(&at(T0, bob()), bob(), first, 1),
        Err(Error::Forbidden)
    );
    assert_eq!(
        v.update_plan_template(&at(T0, bob()), bob(), first, 1, DAY, false, None),
        Err(Error::Forbidden)
    );
    assert_eq!(
        v.update_plan_template(&call, shop(), first, 1, DAY, false, Some(-1)),
        Err(Error::InvalidAmount)
    );
    let id = v.create_subscription_from_plan(&at(T0, alice()), alice(), first).unwrap();
    news(&mut v);
    let second = v.update_plan_template(&call, shop(), first, 150, DAY, false, None).unwrap();
    assert_eq!(
        v.migrate_subscription_to_plan(&at(T0, bob()), bob(), id, second),
        Err(Error::Forbidden)
    );
    assert_eq!(
        v.migrate_subscription_to_plan(&at(T0, alice()), alice(), id, foreign),
        Err(Error::InvalidInput)
    );
    v.migrate_subscription_to_plan(&at(T0 + 3, alice()), alice(), id, second).unwrap();
    assert_eq!(
        news(&mut v),
        vec![
            published(Event::PlanTemplateUpdated(PlanTemplateUpdatedEvent {
                template_key: first,
                old_plan_id: first,
                new_plan_id: second,
                version: 2,
                merchant: shop(),
                timestamp: T0,
            })),
            published(Event::SubscriptionMigrated(SubscriptionMigratedEvent {
                subscription_id: id,
                template_key: first,
                from_plan_id: first,
                to_plan_id: second,
                merchant: shop(),
                subscriber: alice(),
                timestamp: T0 + 3,
            })),
        ]
    );
}

// -- Queries and statements ---------------------------------------------------

#[test]
fn page_sizes_have_bounds() {
    let v = open_vault();
    for limit in [0, MAX_SUBSCRIPTION_LIST_PAGE + 1] {
        assert!(v.list_subscriptions_by_subscriber(alice(), 0, limit).is_err());
        assert_eq!(
            v.get_subscriptions_by_merchant(shop(), 0, limit),
            Err(Error::InvalidInput)
        );
    }
    let page = v
        .list_subscriptions_by_subscriber(alice(), 0, MAX_SUBSCRIPTION_LIST_PAGE)
        .unwrap();
    assert!(page.subscription_ids.is_empty());
    assert_eq!(v.get_sub_statements_offset(0, 0, 0, true), Err(Error::InvalidInput));
    assert_eq!(v.get_sub_statements_cursor(0, None, 0, true), Err(Error::InvalidInput));
    assert_eq!(v.get_cap_info(0), Err(Error::NotFound));
    assert_eq!(v.estimate_topup_for_intervals(0, 1), Err(Error::NotFound));
}

#[test]
fn an_estimate_that_leaves_the_range_overflows() {
    let mut v = open_vault();
    let id = v
        .create_subscription(&at(T0, alice()), alice(), shop(), i128::MAX, DAY, false, None)
        .unwrap();
    assert_eq!(v.estimate_topup_for_intervals(id, 2), Err(Error::Overflow));
    assert_eq!(v.estimate_topup_for_intervals(id, 1), Ok(i128::MAX));
}

#[test]
fn a_compaction_is_published_with_the_aggregate() {
    let mut v = open_vault();
    let id = funded(&mut v, alice(), 1_000);
    for day in 1..4u64 {
        v.charge_subscription(&at(T0 + day * DAY, shop()), id, &NO_QUOTE).unwrap();
    }
    news(&mut v);
    assert!(v.get_billing_retention().keep_recent >= 3);
    v.set_billing_retention(&at(T0, admin()), admin(), 1).unwrap();
    assert_eq!(v.get_billing_retention().keep_recent, 1);
    let summary = v.compact_billing_statements(&at(T0, admin()), admin(), id, None).unwrap();
    assert_eq!((summary.pruned_count, summary.kept_count), (2, 1));
    assert_eq!(
        news(&mut v),
        vec![published(Event::BillingCompacted(BillingCompactedEvent {
            admin: admin(),
            subscription_id: id,
            pruned_count: 2,
            kept_count: 1,
            total_pruned_amount: 200,
            aggregate_pruned_count: 2,
            aggregate_total_amount: 200,
            aggregate_oldest_period_start: Some(T0),
            aggregate_newest_period_end: Some(T0 + 2 * DAY),
            timestamp: T0,
        }))]
    );
}

// -- Metadata and the blocklist -----------------------------------------------

#[test]
fn metadata_is_checked_and_published() {
    let mut v = open_vault();
    let id = subscribed(&mut v, alice(), None);
    news(&mut v);
    let call = at(T0, alice());
    let set = |v: &mut SubscriptionVault, key: Vec<u8>, value: Vec<u8>| {
        v.set_metadata(&call, id, alice(), key, value)
    };
    let long_key = vec![b'k'; MAX_METADATA_KEY_LENGTH + 1];
    let long_value = vec![b'v'; MAX_METADATA_VALUE_LENGTH + 1];
    assert_eq!(set(&mut v, Vec::new(), text("x")), Err(Error::MetadataKeyInvalid));
    assert_eq!(set(&mut v, long_key, text("x")), Err(Error::MetadataKeyInvalid));
    assert_eq!(set(&mut v, text("k"), long_value), Err(Error::MetadataValueTooLong));
    assert_eq!(
        v.set_metadata(&at(T0, bob()), id, bob(), text("k"), text("v")),
        Err(Error::Forbidden)
    );
    assert_eq!(
        v.set_metadata(&call, 9, alice(), text("k"), text("v")),
        Err(Error::NotFound)
    );
    assert_eq!(
        v.delete_metadata(&call, id, alice(), text("k")),
        Err(Error::NotFound)
    );
    assert_eq!(set(&mut v, text("k"), text("v")), Ok(()));
    v.delete_metadata(&at(T0, shop()), id, shop(), text("k")).unwrap();
    assert_eq!(
        news(&mut v),
        vec![
            published(Event::MetadataSet(MetadataSetEvent {
                subscription_id: id,
                key: text("k"),
                authorizer: alice(),
            })),
            published(Event::MetadataDeleted(MetadataDeletedEvent {
                subscription_id: id,
                key: text("k"),
                authorizer: shop(),
            })),
        ]
    );
    assert_eq!(v.list_metadata_keys(9), Err(Error::NotFound));
}

#[test]
fn the_blocklist_keeps_who_and_why() {
    let mut v = open_vault();
    subscribed(&mut v, alice(), None);
    news(&mut v);
    let reason = Some(text("fraud"));
    // The shop serves Alice, not Bob.
    assert_eq!(
        v.add_to_blocklist(&at(T0, shop()), shop(), bob(), None),
        Err(Error::Forbidden)
    );
    v.add_to_blocklist(&at(T0, shop()), shop(), alice(), reason.clone()).unwrap();
    v.add_to_blocklist(&at(T0, admin()), admin(), bob(), None).unwrap();
    assert!(v.is_blocklisted(alice()));
    let entry = v.get_blocklist_entry(alice()).unwrap();
    assert_eq!((entry.subscriber, entry.added_by, entry.added_at), (alice(), shop(), T0));
    assert_eq!(entry.reason, reason);
    assert_eq!(
        v.remove_from_blocklist(&at(T0, shop()), shop(), alice()),
        Err(Error::Unauthorized)
    );
    v.remove_from_blocklist(&at(T0 + 1, admin()), admin(), alice()).unwrap();
    assert_eq!(
        v.remove_from_blocklist(&at(T0 + 1, admin()), admin(), alice()),
        Err(Error::NotFound)
    );
    assert!(!v.is_blocklisted(alice()));
    assert!(v.is_blocklisted(bob()));
    assert_eq!(v.get_blocklist_entry(alice()), Err(Error::NotFound));
    assert_eq!(
        news(&mut v),
        vec![
            published(Event::BlocklistAdded(BlocklistAddedEvent {
                subscriber: alice(),
                added_by: shop(),
                timestamp: T0,
                reason,
            })),
            published(Event::BlocklistAdded(BlocklistAddedEvent {
                subscriber: bob(),
                added_by: admin(),
                timestamp: T0,
                reason: None,
            })),
            published(Event::BlocklistRemoved(BlocklistRemovedEvent {
                subscriber: alice(),
                removed_by: admin(),
                timestamp: T0 + 1,
            })),
        ]
    );
}

// -- Exports ------------------------------------------------------------------

#[test]
fn exports_are_checked_and_published() {
    let mut v = open_vault();
    let id = funded(&mut v, alice(), 40);
    subscribed(&mut v, bob(), None);
    news(&mut v);
    let call = at(T0 + 5, admin());
    let snapshot = v.export_contract_snapshot(&call, admin()).unwrap();
    assert_eq!((snapshot.admin, snapshot.token), (admin(), token()));
    assert_eq!((snapshot.min_topup, snapshot.next_id), (10, 2));
    assert_eq!(snapshot.storage_version, STORAGE_VERSION);
    assert_eq!(snapshot.timestamp, T0 + 5);
    let summary = v.export_subscription_summary(&call, admin(), id).unwrap();
    assert_eq!((summary.subscription_id, summary.prepaid_balance), (id, 40));
    assert_eq!((summary.subscriber, summary.merchant), (alice(), shop()));
    assert_eq!(
        v.export_subscription_summary(&call, admin(), 9),
        Err(Error::NotFound)
    );
    let page = v.export_subscription_summaries(&call, admin(), 1, 10).unwrap();
    assert_eq!(page.len(), 1);
    assert_eq!(page[0].subscriber, bob());
    assert_eq!(
        v.export_subscription_summaries(&call, admin(), 0, MAX_EXPORT_LIMIT + 1),
        Err(Error::InvalidExportLimit)
    );
    assert_eq!(v.export_subscription_summaries(&call, admin(), 2, 5), Ok(Vec::new()));
    assert_eq!(v.export_subscription_summaries(&call, admin(), 0, 0), Ok(Vec::new()));
    assert_eq!(
        news(&mut v),
        vec![
            published(Event::ContractSnapshot(ContractSnapshotEvent {
                admin: admin(),
                timestamp: T0 + 5,
            })),
            published(Event::MigrationExport(MigrationExportEvent {
                admin: admin(),
                start_id: id,
                limit: 1,
                exported: 1,
                timestamp: T0 + 5,
            })),
            published(Event::MigrationExport(MigrationExportEvent {
                admin: admin(),
                start_id: 1,
                limit: 10,
                exported: 1,
                timestamp: T0 + 5,
            })),
        ]
    );
}

// -- Oracle settings ----------------------------------------------------------

#[test]
fn oracle_settings_are_checked() {
    let mut v = open_vault();
    let call = at(T0, admin());
    let oracle = Some(contract(9));
    assert_eq!(
        v.set_oracle_config(&call, admin(), true, None, 60),
        Err(Error::OracleNotConfigured)
    );
    assert_eq!(
        v.set_oracle_config(&call, admin(), true, oracle, 0),
        Err(Error::InvalidInput)
    );
    v.set_oracle_config(&call, admin(), true, oracle, 60).unwrap();
    let config = v.get_oracle_config();
    assert!(config.enabled);
    assert_eq!((config.oracle, config.max_age_seconds), (oracle, 60));
    // An interval of 100 in quote units at 50 quote units a token unit of 10^6.
    let id = funded(&mut v, alice(), 5_000_000);
    let quote = OraclePrice { price: 50, timestamp: T0 + DAY };
    assert_eq!(
        v.charge_subscription(&at(T0 + DAY, shop()), id, &quote),
        Ok(ChargeExecutionResult::Charged)
    );
    assert_eq!(prepaid(&v, id), 3_000_000);
    assert_eq!(v.get_merchant_balance(shop()), 2_000_000);
    v.set_oracle_config(&call, admin(), false, None, 0).unwrap();
    assert!(!v.get_oracle_config().enabled);
}

// -- Error codes --------------------------------------------------------------

#[test]
fn error_codes_identify_the_error() {
    let all = [
        Error::Unauthorized,
        Error::Forbidden,
        Error::NotFound,
        Error::InvalidStatusTransition,
        Error::BelowMinimumTopup,
        Error::IntervalNotElapsed,
        Error::NotActive,
        Error::InsufficientBalance,
        Error::UsageNotEnabled,
        Error::InsufficientPrepaidBalance,
        Error::InvalidAmount,
        Error::Replay,
        Error::InvalidRecoveryAmount,
        Error::EmergencyStopActive,
        Error::Underflow,
        Error::RecoveryNotAllowed,
        Error::Overflow,
        Error::NotInitialized,
        Error::InvalidExportLimit,
        Error::InvalidInput,
        Error::Reentrancy,
        Error::LifetimeCapReached,
        Error::AlreadyInitialized,
        Error::SubscriptionLimitReached,
        Error::OracleNotConfigured,
        Error::OraclePriceUnavailable,
        Error::OraclePriceStale,
        Error::OraclePriceInvalid,
        Error::MetadataKeyLimitReached,
        Error::MetadataKeyInvalid,
        Error::MetadataValueTooLong,
        Error::MerchantPaused,
        Error::MaxConcurrentSubscriptionsReached,
        Error::CreditLimitExceeded,
        Error::RateLimitExceeded,
        Error::UsageCapExceeded,
        Error::BurstLimitExceeded,
    ];
    for (i, a) in all.iter().enumerate() {
        for b in all[i + 1..].iter() {
            assert_ne!(a.to_code(), b.to_code());
        }
    }
    assert_eq!(Error::NotFound.to_code(), 404);
    assert_eq!(Error::InsufficientBalance.to_code(), 1003);
    assert_eq!(Error::Replay.to_code(), 1007);
    assert_eq!(Error::LifetimeCapReached.to_code(), 1017);
    assert_eq!(Error::SubscriptionLimitReached.to_code(), 429);
}
