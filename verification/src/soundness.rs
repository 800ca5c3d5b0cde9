//! What holds of the vault after any operations whatsoever.
use crate::admin::{
    accepted_token_is_registered, charged_in_turn, is_accepted, removed_token_is_not_accepted,
    token_removal_refusal, tokens_are_distinct,
};
use crate::charge_core::{has_period, interval_charge, usage_charge};
use crate::merchant::{balance_of, credited, earnings_of, reconciled, Merchants};
use crate::metadata::{
    delete_frees_a_key, delete_refusal, deleted_key_is_gone, keys_are_bounded,
    keys_are_distinct, keys_of, set_keeps_key_limit, set_refusal, set_value_is_read_back,
};
use crate::operation::{after, is_possible, is_refused, Moment, Operation};
use crate::oracle::charge_amount;
use crate::safe_math::amount_of;
use crate::state_machine::transition_allowed;
use crate::statement_laws::{
    appended_statement_is_newest, compaction_keeps_consistency, consistent, live_sequences,
};
use crate::statements::{checked_total, counted, keep_threshold};
use crate::subscription::{is_valid_cap, one_off_charge};
use crate::tables::listed;
use crate::types::{
    Address, BillingChargeKind, Bucket, Bytes32, Error, MetadataEntry,
    OraclePrice, Subscription, TokenEarnings,
};
use crate::vault::{fresh, VaultState};
use vstd::prelude::*;

verus! {

// ── What a sound vault is ────────────────────────────────────────────────────

/// What was accrued, by all kinds of charges.
pub open spec fn total_accrued(earnings: TokenEarnings) -> int {
    earnings.accruals.interval + earnings.accruals.usage + earnings.accruals.one_off
}

/// A merchant's balance is what was accrued less what was withdrawn and refunded, and it is
/// never negative.
pub open spec fn bucket_reconciles(m: Merchants, bucket: Bucket) -> bool {
    let earnings = earnings_of(m, bucket);
    &&& balance_of(m, bucket) == total_accrued(earnings) - earnings.withdrawals
        - earnings.refunds
    &&& balance_of(m, bucket) >= 0
}

/// Every merchant's books reconcile in every token.
pub open spec fn books_reconcile(m: Merchants) -> bool {
    forall|bucket: Bucket| #[trigger] bucket_reconciles(m, bucket)
}

/// A subscription's balance is not negative, and no more than its cap was ever charged.
pub open spec fn is_solid(sub: Subscription) -> bool {
    &&& sub.prepaid_balance >= 0
    &&& sub.lifetime_charged >= 0
    &&& is_valid_cap(sub.lifetime_cap)
    &&& sub.lifetime_cap matches Some(cap) ==> sub.lifetime_charged <= cap
}

/// Every subscription is solid, and subscriptions stand under all ids given out and no
/// others.
pub open spec fn subscriptions_are_solid(s: VaultState) -> bool {
    &&& forall|id: u32| #[trigger] s.subscriptions.contains_key(id) <==> id < s.next_id
    &&& forall|id: u32|
        #![trigger s.subscriptions[id]]
        id < s.next_id ==> is_solid(s.subscriptions[id])
}

/// The indices list every subscription once, in the order of creation, under its merchant
/// and its token.
pub open spec fn indices_are_complete(s: VaultState) -> bool {
    &&& s.by_merchant.len() == s.next_id
    &&& s.by_token.len() == s.next_id
    &&& forall|id: u32|
        #![trigger s.subscriptions[id]]
        id < s.next_id ==> s.by_merchant[id as int] == (s.subscriptions[id].merchant, id)
            && s.by_token[id as int] == (s.subscriptions[id].token, id)
}

/// Plans stand under all plan ids given out and no others, with valid caps, and every
/// subscription that came from a plan knows one of them.
pub open spec fn plans_are_in_order(s: VaultState) -> bool {
    &&& forall|id: u32| #[trigger] s.plans.contains_key(id) <==> id < s.next_plan_id
    &&& forall|id: u32|
        #![trigger s.plans[id]]
        id < s.next_plan_id ==> is_valid_cap(s.plans[id].lifetime_cap)
    &&& forall|id: u32| #[trigger]
        s.plan_of.contains_key(id) ==> id < s.next_id && s.plan_of[id] < s.next_plan_id
}

/// The default token is among the accepted ones.
pub open spec fn default_token_is_accepted(s: VaultState) -> bool {
    s.config.token matches Some(token) ==> is_accepted(s, token)
}

/// A sound vault.
pub open spec fn is_sound(s: VaultState) -> bool {
    &&& books_reconcile(s.merchants)
    &&& s.merchants.balances.dom().finite()
    &&& subscriptions_are_solid(s)
    &&& indices_are_complete(s)
    &&& plans_are_in_order(s)
    &&& default_token_is_accepted(s)
    &&& tokens_are_distinct(s.tokens)
    &&& keys_are_distinct(s.metadata)
    &&& keys_are_bounded(s.metadata)
}

/// A vault is sound before its initialization.
pub proof fn fresh_vault_is_sound()
    ensures
        is_sound(fresh()),
{
    let s = fresh();
    assert forall|bucket: Bucket| #[trigger] bucket_reconciles(s.merchants, bucket) by {}
    assert forall|id: u32| (#[trigger] keys_of(s.metadata, id)).len() <= 10 by {}
}

// ── What operations leave alone ──────────────────────────────────────────────

/// How one subscription may change in one step.
pub open spec fn is_lawful_change(a: Subscription, b: Subscription) -> bool {
    &&& b.subscriber == a.subscriber
    &&& b.merchant == a.merchant
    &&& b.token == a.token
    &&& b.lifetime_charged >= a.lifetime_charged
    &&& transition_allowed(a.status, b.status)
}

/// Subscriptions are the same but for lawful changes, which keep solid ones solid.
spec fn subscriptions_progress(
    before: Map<u32, Subscription>,
    now: Map<u32, Subscription>,
) -> bool {
    &&& forall|id: u32| #[trigger] now.contains_key(id) <==> before.contains_key(id)
    &&& forall|id: u32|
        #![trigger now[id]]
        before.contains_key(id) && is_solid(before[id]) ==> is_lawful_change(
            before[id],
            now[id],
        ) && is_solid(now[id])
}

/// Whether an operation can create a subscription.
pub open spec fn creates_subscription(op: Operation) -> bool {
    op is CreateSubscription || op is CreateSubscriptionFromPlan
}

/// Whether an operation can change existing subscriptions.
pub open spec fn changes_subscription(op: Operation) -> bool {
    op is DepositFunds || op is MigrateSubscriptionToPlan || op is CancelSubscription
        || op is PauseSubscription || op is ResumeSubscription || op is WithdrawSubscriberFunds
        || op is PartialRefund || is_charge(op)
}

/// Whether an operation charges.
pub open spec fn is_charge(op: Operation) -> bool {
    op is ChargeOneOff || op is ChargeInterval || op is ChargeUsage
}

/// Whether an operation can create a plan.
pub open spec fn creates_plan(op: Operation) -> bool {
    op is CreatePlanTemplate || op is CreatePlanTemplateWithToken || op is UpdatePlanTemplate
}

/// A charge touches balances, replay marks, usage bookkeeping, statements and the outbox.
spec fn charge_leaves_alone(s: VaultState, t: VaultState) -> bool {
    &&& t.config == s.config
    &&& t.tokens == s.tokens
    &&& t.next_id == s.next_id
    &&& t.by_merchant == s.by_merchant
    &&& t.by_token == s.by_token
    &&& t.next_plan_id == s.next_plan_id
    &&& t.plans == s.plans
    &&& t.plan_of == s.plan_of
    &&& t.metadata == s.metadata
    &&& s.outbox.is_prefix_of(t.outbox)
}

proof fn lemma_interval_charge_progress(
    s: VaultState,
    id: u32,
    now: u64,
    key: Option<Bytes32>,
    quote: OraclePrice,
)
    ensures
        charge_leaves_alone(s, interval_charge(s, id, now, key, quote).0),
        subscriptions_progress(
            s.subscriptions,
            interval_charge(s, id, now, key, quote).0.subscriptions,
        ),
        books_reconcile(s.merchants) ==> books_reconcile(
            interval_charge(s, id, now, key, quote).0.merchants,
        ),
{
    if s.subscriptions.contains_key(id) {
        let sub = s.subscriptions[id];
        let bucket = Bucket { holder: sub.merchant, token: sub.token };
        if books_reconcile(s.merchants) {
            match charge_amount(s, sub, quote, now) {
                Ok(amount) => {
                    lemma_crediting_reconciles(
                        s.merchants,
                        bucket,
                        amount,
                        BillingChargeKind::Interval,
                    );
                },
                Err(_) => {},
            }
        }
    }
}

proof fn lemma_usage_charge_progress(
    s: VaultState,
    id: u32,
    amount: i128,
    reference: Seq<u8>,
    now: u64,
)
    ensures
        charge_leaves_alone(s, usage_charge(s, id, amount, reference, now).0),
        subscriptions_progress(
            s.subscriptions,
            usage_charge(s, id, amount, reference, now).0.subscriptions,
        ),
        books_reconcile(s.merchants) ==> books_reconcile(
            usage_charge(s, id, amount, reference, now).0.merchants,
        ),
{
    let sub = s.subscriptions[id];
    let bucket = Bucket { holder: sub.merchant, token: sub.token };
    if books_reconcile(s.merchants) {
        lemma_crediting_reconciles(s.merchants, bucket, amount, BillingChargeKind::Usage);
    }
}

proof fn lemma_one_off_charge_progress(
    s: VaultState,
    id: u32,
    merchant: Address,
    amount: i128,
    now: u64,
)
    ensures
        charge_leaves_alone(s, one_off_charge(s, id, merchant, amount, now).0),
        subscriptions_progress(
            s.subscriptions,
            one_off_charge(s, id, merchant, amount, now).0.subscriptions,
        ),
        books_reconcile(s.merchants) ==> books_reconcile(
            one_off_charge(s, id, merchant, amount, now).0.merchants,
        ),
{
    let bucket = Bucket { holder: merchant, token: s.subscriptions[id].token };
    if books_reconcile(s.merchants) {
        lemma_crediting_reconciles(s.merchants, bucket, amount, BillingChargeKind::OneOff);
    }
}

proof fn lemma_charge_progress(s: VaultState, m: Moment, op: Operation)
    requires
        is_charge(op),
    ensures
        charge_leaves_alone(s, after(s, m, op)),
        subscriptions_progress(s.subscriptions, after(s, m, op).subscriptions),
        books_reconcile(s.merchants) ==> books_reconcile(after(s, m, op).merchants),
{
    match op {
        Operation::ChargeOneOff { subscription_id, merchant, amount } => {
            lemma_one_off_charge_progress(s, subscription_id, merchant, amount, m.now);
        },
        Operation::ChargeInterval { subscription_id, idempotency_key, quote } => {
            lemma_interval_charge_progress(
                s,
                subscription_id,
                m.now,
                idempotency_key,
                quote,
            );
        },
        Operation::ChargeUsage { subscription_id, usage_amount, reference } => {
            lemma_usage_charge_progress(s, subscription_id, usage_amount, reference, m.now);
        },
        _ => {},
    }
}

/// What operations other than charges leave alone.
pub(crate) proof fn lemma_untouched(s: VaultState, m: Moment, op: Operation)
    requires
        !is_charge(op),
    ensures
        s.outbox.is_prefix_of(after(s, m, op).outbox),
        !creates_subscription(op) ==> {
            &&& after(s, m, op).next_id == s.next_id
            &&& after(s, m, op).by_merchant == s.by_merchant
            &&& after(s, m, op).by_token == s.by_token
        },
        !creates_subscription(op) && !changes_subscription(op) ==> after(s, m, op).subscriptions
            == s.subscriptions,
        !creates_plan(op) ==> {
            &&& after(s, m, op).next_plan_id == s.next_plan_id
            &&& after(s, m, op).plans == s.plans
        },
        !(op is CreateSubscriptionFromPlan) && !(op is MigrateSubscriptionToPlan) ==> after(
            s,
            m,
            op,
        ).plan_of == s.plan_of,
        !(op is Init) && !(op is AddAcceptedToken) && !(op is RemoveAcceptedToken) ==> after(
            s,
            m,
            op,
        ).tokens == s.tokens,
        !(op is Init) ==> after(s, m, op).config.token == s.config.token,
        !(op is SetMetadata) && !(op is DeleteMetadata) ==> after(s, m, op).metadata
            == s.metadata,
        !(op is WithdrawMerchantFunds) && !(op is MerchantRefund) ==> {
            &&& after(s, m, op).merchants.balances == s.merchants.balances
            &&& after(s, m, op).merchants.earnings == s.merchants.earnings
        },
{
}

// ── Merchants ────────────────────────────────────────────────────────────────

proof fn lemma_crediting_reconciles(
    m: Merchants,
    bucket: Bucket,
    amount: i128,
    kind: BillingChargeKind,
)
    requires
        books_reconcile(m),
    ensures
        credited(m, bucket, amount, kind) matches Ok(t) ==> books_reconcile(t),
{
    if let Ok(t) = credited(m, bucket, amount, kind) {
        assert forall|b: Bucket| #[trigger] bucket_reconciles(t, b) by {
            assert(bucket_reconciles(m, b));
        }
    }
}

/// Only finitely many merchants hold balances.
proof fn lemma_balances_stay_finite(s: VaultState, m: Moment, op: Operation)
    requires
        s.merchants.balances.dom().finite(),
    ensures
        after(s, m, op).merchants.balances.dom().finite(),
{
    if !is_charge(op) {
        lemma_untouched(s, m, op);
    }
}

proof fn lemma_merchants_stay_reconciled(s: VaultState, m: Moment, op: Operation)
    requires
        books_reconcile(s.merchants),
    ensures
        books_reconcile(after(s, m, op).merchants),
{
    let t = after(s, m, op);
    if is_charge(op) {
        lemma_charge_progress(s, m, op);
    } else {
        lemma_untouched(s, m, op);
        assert forall|b: Bucket| #[trigger] bucket_reconciles(t.merchants, b) by {
            assert(bucket_reconciles(s.merchants, b));
            reveal(is_refused);
        }
    }
}

// ── Subscriptions ────────────────────────────────────────────────────────────

proof fn lemma_changes_progress(s: VaultState, m: Moment, op: Operation)
    requires
        changes_subscription(op),
        plans_are_in_order(s),
    ensures
        subscriptions_progress(s.subscriptions, after(s, m, op).subscriptions),
{
    if is_charge(op) {
        lemma_charge_progress(s, m, op);
    } else {
        reveal(is_refused);
        match op {
            Operation::MigrateSubscriptionToPlan { new_plan_template_id, .. } => {
                assert(s.plans.contains_key(new_plan_template_id) <==> new_plan_template_id
                    < s.next_plan_id);
                assert(new_plan_template_id < s.next_plan_id ==> is_valid_cap(
                    s.plans[new_plan_template_id].lifetime_cap,
                ));
            },
            _ => {},
        }
    }
}

/// A new subscription stands under the next id, is solid, and changes no other.
pub(crate) proof fn lemma_creation(s: VaultState, m: Moment, op: Operation)
    requires
        creates_subscription(op),
        plans_are_in_order(s),
    ensures
        ({
            let t = after(s, m, op);
            let sub = t.subscriptions[s.next_id];
            t == s || {
                &&& s.next_id < u32::MAX
                &&& t.next_id == s.next_id + 1
                &&& is_solid(sub)
                &&& t.subscriptions == s.subscriptions.insert(s.next_id, sub)
                &&& t.by_merchant == s.by_merchant.push((sub.merchant, s.next_id))
                &&& t.by_token == s.by_token.push((sub.token, s.next_id))
            }
        }),
{
    reveal(is_refused);
    match op {
        Operation::CreateSubscriptionFromPlan { plan_template_id, .. } => {
            assert(s.plans.contains_key(plan_template_id) <==> plan_template_id
                < s.next_plan_id);
            assert(plan_template_id < s.next_plan_id ==> is_valid_cap(
                s.plans[plan_template_id].lifetime_cap,
            ));
        },
        _ => {},
    }
}

proof fn lemma_subscriptions_stay_solid(s: VaultState, m: Moment, op: Operation)
    requires
        subscriptions_are_solid(s),
        plans_are_in_order(s),
    ensures
        subscriptions_are_solid(after(s, m, op)),
{
    let t = after(s, m, op);
    if creates_subscription(op) {
        lemma_creation(s, m, op);
    } else if changes_subscription(op) {
        lemma_changes_progress(s, m, op);
        if is_charge(op) {
            lemma_charge_progress(s, m, op);
        } else {
            lemma_untouched(s, m, op);
        }
    } else {
        lemma_untouched(s, m, op);
    }
    assert forall|id: u32| #[trigger] t.subscriptions.contains_key(id) <==> id < t.next_id by {
        assert(s.subscriptions.contains_key(id) <==> id < s.next_id);
    }
    assert forall|id: u32|
        #![trigger t.subscriptions[id]]
        id < t.next_id implies is_solid(t.subscriptions[id]) by {
        assert(s.subscriptions.contains_key(id) <==> id < s.next_id);
        assert(id < s.next_id ==> is_solid(s.subscriptions[id]));
    }
}

proof fn lemma_indices_stay_complete(s: VaultState, m: Moment, op: Operation)
    requires
        subscriptions_are_solid(s),
        plans_are_in_order(s),
        indices_are_complete(s),
    ensures
        indices_are_complete(after(s, m, op)),
{
    let t = after(s, m, op);
    if creates_subscription(op) {
        lemma_creation(s, m, op);
    } else if changes_subscription(op) {
        lemma_changes_progress(s, m, op);
        if is_charge(op) {
            lemma_charge_progress(s, m, op);
        } else {
            lemma_untouched(s, m, op);
        }
    } else {
        lemma_untouched(s, m, op);
    }
    assert forall|id: u32|
        #![trigger t.subscriptions[id]]
        id < t.next_id implies t.by_merchant[id as int] == (t.subscriptions[id].merchant, id)
        && t.by_token[id as int] == (t.subscriptions[id].token, id) by {
        assert(s.subscriptions.contains_key(id) <==> id < s.next_id);
        if id < s.next_id {
            assert(is_solid(s.subscriptions[id]));
            assert(s.by_merchant[id as int] == (s.subscriptions[id].merchant, id));
        }
    }
}

proof fn lemma_plans_stay_in_order(s: VaultState, m: Moment, op: Operation)
    requires
        subscriptions_are_solid(s),
        plans_are_in_order(s),
        is_possible(s, op),
    ensures
        plans_are_in_order(after(s, m, op)),
{
    let t = after(s, m, op);
    if is_charge(op) {
        lemma_charge_progress(s, m, op);
    } else {
        lemma_untouched(s, m, op);
        if creates_subscription(op) {
            lemma_creation(s, m, op);
        }
        if creates_plan(op) || op is CreateSubscriptionFromPlan || op is MigrateSubscriptionToPlan {
            reveal(is_refused);
        }
    }
    assert forall|id: u32| #[trigger] t.plans.contains_key(id) <==> id < t.next_plan_id by {
        assert(s.plans.contains_key(id) <==> id < s.next_plan_id);
    }
    assert forall|id: u32|
        #![trigger t.plans[id]]
        id < t.next_plan_id implies is_valid_cap(t.plans[id].lifetime_cap) by {
        assert(s.plans.contains_key(id) <==> id < s.next_plan_id);
        assert(id < s.next_plan_id ==> is_valid_cap(s.plans[id].lifetime_cap));
    }
    assert forall|id: u32| #[trigger] t.plan_of.contains_key(id) implies id < t.next_id
        && t.plan_of[id] < t.next_plan_id by {
        if s.plan_of.contains_key(id) {
            assert(id < s.next_id && s.plan_of[id] < s.next_plan_id);
        }
        match op {
            Operation::CreateSubscriptionFromPlan { plan_template_id, .. } => {
                assert(s.plans.contains_key(plan_template_id) <==> plan_template_id
                    < s.next_plan_id);
            },
            Operation::MigrateSubscriptionToPlan { subscription_id, new_plan_template_id, .. }
            => {
                assert(s.plans.contains_key(new_plan_template_id) <==> new_plan_template_id
                    < s.next_plan_id);
                assert(s.subscriptions.contains_key(subscription_id) <==> subscription_id
                    < s.next_id);
            },
            _ => {},
        }
    }
}

// ── Tokens and metadata ──────────────────────────────────────────────────────

proof fn lemma_tokens_stay_in_order(s: VaultState, m: Moment, op: Operation)
    requires
        default_token_is_accepted(s),
        tokens_are_distinct(s.tokens),
    ensures
        default_token_is_accepted(after(s, m, op)),
        tokens_are_distinct(after(s, m, op).tokens),
{
    let t = after(s, m, op);
    if is_charge(op) {
        lemma_charge_progress(s, m, op);
    } else {
        lemma_untouched(s, m, op);
    }
    match op {
        Operation::Init { token, token_decimals, .. } => {
            accepted_token_is_registered(s.tokens, token, token_decimals, token);
        },
        Operation::AddAcceptedToken { token, decimals, .. } => {
            accepted_token_is_registered(s.tokens, token, decimals, token);
            if let Some(default_token) = s.config.token {
                accepted_token_is_registered(s.tokens, token, decimals, default_token);
            }
        },
        Operation::RemoveAcceptedToken { admin, token } => {
            reveal(is_refused);
            if token_removal_refusal(s, admin, token) is None {
                removed_token_is_not_accepted(s.tokens, token, token);
                if let Some(default_token) = s.config.token {
                    removed_token_is_not_accepted(s.tokens, token, default_token);
                }
            }
        },
        _ => {},
    }
}

proof fn lemma_metadata_stays_in_order(s: VaultState, m: Moment, op: Operation)
    requires
        keys_are_distinct(s.metadata),
        keys_are_bounded(s.metadata),
    ensures
        keys_are_distinct(after(s, m, op).metadata),
        keys_are_bounded(after(s, m, op).metadata),
{
    if is_charge(op) {
        lemma_charge_progress(s, m, op);
    } else {
        lemma_untouched(s, m, op);
    }
    match op {
        Operation::SetMetadata { subscription_id, authorizer, key, value } => {
            reveal(is_refused);
            if set_refusal(s, subscription_id, authorizer, key, value) is None {
                let entry = MetadataEntry { subscription_id, key, value };
                set_value_is_read_back(s.metadata, entry, subscription_id, key);
                set_keeps_key_limit(s, subscription_id, authorizer, key, value);
            }
        },
        Operation::DeleteMetadata { subscription_id, authorizer, key } => {
            reveal(is_refused);
            if delete_refusal(s, subscription_id, authorizer, key) is None {
                deleted_key_is_gone(s.metadata, subscription_id, key, subscription_id, key);
                delete_frees_a_key(s.metadata, subscription_id, key, subscription_id);
            }
        },
        _ => {},
    }
}

// ── Laws ─────────────────────────────────────────────────────────────────────

/// Every operation keeps the vault sound: books reconcile, balances are not negative,
/// nobody is charged beyond a cap, the indices and plans are complete, every accepted token
/// is listed once and the default one stays accepted, and metadata stays within its limits.
pub proof fn every_operation_keeps_the_vault_sound(s: VaultState, m: Moment, op: Operation)
    requires
        is_sound(s),
        is_possible(s, op),
    ensures
        is_sound(after(s, m, op)),
{
    lemma_merchants_stay_reconciled(s, m, op);
    lemma_balances_stay_finite(s, m, op);
    lemma_subscriptions_stay_solid(s, m, op);
    lemma_indices_stay_complete(s, m, op);
    lemma_plans_stay_in_order(s, m, op);
    lemma_tokens_stay_in_order(s, m, op);
    lemma_metadata_stays_in_order(s, m, op);
}

/// A batch of charges keeps the vault sound.
pub proof fn batches_keep_the_vault_sound(
    s: VaultState,
    ids: Seq<u32>,
    m: Moment,
    quote: OraclePrice,
)
    requires
        is_sound(s),
        !s.config.emergency_stop,
        forall|i: int| 0 <= i < ids.len() ==> has_period(s, #[trigger] ids[i]),
    ensures
        is_sound(charged_in_turn(s, ids, m.now, quote).0),
        !charged_in_turn(s, ids, m.now, quote).0.config.emergency_stop,
        forall|id: u32|
            has_period(s, id) ==> #[trigger] has_period(
                charged_in_turn(s, ids, m.now, quote).0,
                id,
            ),
    decreases ids.len(),
{
    if ids.len() > 0 {
        let front = ids.drop_last();
        assert forall|i: int| 0 <= i < front.len() implies has_period(s, #[trigger] front[i]) by {
            assert(front[i] == ids[i]);
        }
        batches_keep_the_vault_sound(s, front, m, quote);
        let before = charged_in_turn(s, front, m.now, quote).0;
        let id = ids.last();
        assert(has_period(s, ids[ids.len() - 1]));
        let op = Operation::ChargeInterval {
            subscription_id: id,
            idempotency_key: None,
            quote,
        };
        every_operation_keeps_the_vault_sound(before, m, op);
        assert(after(before, m, op) == charged_in_turn(s, ids, m.now, quote).0) by {
            reveal(is_refused);
        }
        assert forall|other: u32| has_period(s, other) implies #[trigger] has_period(
            charged_in_turn(s, ids, m.now, quote).0,
            other,
        ) by {
            assert(has_period(before, other));
        }
    }
}

/// Every operation keeps the billing history consistent, as long as sequence numbers last:
/// rows stand under their own ids and numbers, and as many are held as are reported.
pub proof fn every_operation_keeps_the_history_consistent(
    s: VaultState,
    m: Moment,
    op: Operation,
)
    requires
        consistent(s.statements),
        forall|id: u32| #[trigger] counted(s.statements.next, id) < u32::MAX,
    ensures
        consistent(after(s, m, op).statements),
{
    match op {
        Operation::ChargeOneOff { subscription_id, merchant, amount } => {
            appended_statement_is_newest(
                s.statements,
                subscription_id,
                amount,
                merchant,
                BillingChargeKind::OneOff,
                m.now,
                m.now,
                m.now,
            );
        },
        Operation::ChargeInterval { subscription_id, quote, .. } => {
            let sub = s.subscriptions[subscription_id];
            if let Ok(amount) = charge_amount(s, sub, quote, m.now) {
                appended_statement_is_newest(
                    s.statements,
                    subscription_id,
                    amount,
                    sub.merchant,
                    BillingChargeKind::Interval,
                    sub.last_payment_timestamp,
                    m.now,
                    m.now,
                );
            }
        },
        Operation::ChargeUsage { subscription_id, usage_amount, .. } => {
            appended_statement_is_newest(
                s.statements,
                subscription_id,
                usage_amount,
                s.subscriptions[subscription_id].merchant,
                BillingChargeKind::Usage,
                m.now,
                m.now,
                m.now,
            );
        },
        Operation::CompactBillingStatements { subscription_id, keep_recent_override, .. } => {
            compaction_keeps_consistency(
                s.statements,
                subscription_id,
                keep_threshold(s.statements, keep_recent_override),
            );
        },
        Operation::SetBillingRetention { .. } => {
            lemma_retention_is_no_history(s, m, op);
        },
        _ => {
            lemma_statements_untouched(s, m, op);
        },
    }
}

proof fn lemma_statements_untouched(s: VaultState, m: Moment, op: Operation)
    requires
        !is_charge(op),
        !(op is CompactBillingStatements),
        !(op is SetBillingRetention),
    ensures
        after(s, m, op).statements == s.statements,
{
}

proof fn lemma_retention_is_no_history(s: VaultState, m: Moment, op: Operation)
    requires
        op is SetBillingRetention,
        consistent(s.statements),
    ensures
        consistent(after(s, m, op).statements),
{
    let t = after(s, m, op);
    assert forall|id: u32| (#[trigger] live_sequences(t.statements, id)).len() == counted(
        t.statements.live,
        id,
    ) by {
        assert(live_sequences(s.statements, id).len() == counted(s.statements.live, id));
    }
}

/// What may not change in one step: a subscription's parties, token and what was charged
/// so far, how its status moves, templates of plans, and what the ledger was asked before.
pub open spec fn is_lawful_step(s: VaultState, t: VaultState) -> bool {
    &&& forall|id: u32| #[trigger]
        s.subscriptions.contains_key(id) ==> t.subscriptions.contains_key(id)
            && is_lawful_change(s.subscriptions[id], t.subscriptions[id])
    &&& forall|id: u32| #[trigger]
        s.plans.contains_key(id) ==> t.plans.contains_key(id) && t.plans[id] == s.plans[id]
    &&& t.next_id >= s.next_id
    &&& t.next_plan_id >= s.next_plan_id
    &&& s.outbox.is_prefix_of(t.outbox)
}

/// Every operation is a lawful step: status moves only as the lifecycle allows, so that a
/// cancelled subscription stays cancelled; its parties and token never change; what it was
/// charged never shrinks; and no plan template is ever changed.
pub proof fn every_operation_is_lawful(s: VaultState, m: Moment, op: Operation)
    requires
        is_sound(s),
        is_possible(s, op),
    ensures
        is_lawful_step(s, after(s, m, op)),
{
    let t = after(s, m, op);
    if creates_subscription(op) {
        lemma_creation(s, m, op);
        lemma_untouched(s, m, op);
    } else if changes_subscription(op) {
        lemma_changes_progress(s, m, op);
        if is_charge(op) {
            lemma_charge_progress(s, m, op);
        } else {
            lemma_untouched(s, m, op);
        }
    } else {
        lemma_untouched(s, m, op);
    }
    assert forall|id: u32| #[trigger] s.subscriptions.contains_key(id) implies
        t.subscriptions.contains_key(id) && is_lawful_change(
        s.subscriptions[id],
        t.subscriptions[id],
    ) by {
        assert(id < s.next_id);
        assert(is_solid(s.subscriptions[id]));
        assert(t.subscriptions.contains_key(id));
    }
    assert forall|id: u32| #[trigger] s.plans.contains_key(id) implies t.plans.contains_key(id)
        && t.plans[id] == s.plans[id] by {
        assert(id < s.next_plan_id);
    }
}

/// A subscription that is cancelled stays cancelled, whatever happens.
pub proof fn cancellation_is_final(s: VaultState, m: Moment, op: Operation, id: u32)
    requires
        is_sound(s),
        is_possible(s, op),
        s.subscriptions.contains_key(id),
        s.subscriptions[id].status is Cancelled,
    ensures
        after(s, m, op).subscriptions.contains_key(id),
        after(s, m, op).subscriptions[id].status is Cancelled,
{
    every_operation_is_lawful(s, m, op);
}

/// In a sound vault no merchant and no token has more subscriptions listed than were
/// created.
pub proof fn listed_counts_are_bounded(s: VaultState, who: Address)
    requires
        is_sound(s),
    ensures
        listed(s.by_merchant, who).len() <= s.next_id,
        listed(s.by_token, who).len() <= s.next_id,
{
    lemma_listed_is_short(s.by_merchant, who);
    lemma_listed_is_short(s.by_token, who);
}

proof fn lemma_listed_is_short(index: Seq<(Address, u32)>, who: Address)
    ensures
        listed(index, who).len() <= index.len(),
    decreases index.len(),
{
    if index.len() > 0 {
        lemma_listed_is_short(index.drop_last(), who);
    }
}

/// In a sound vault, a reconciliation snapshot shows exactly the merchant's balance.
pub proof fn snapshot_shows_the_balance(s: VaultState, merchant: Address, token: Address)
    requires
        is_sound(s),
        reconciled(
            token,
            earnings_of(s.merchants, Bucket { holder: merchant, token }),
        ) is Ok,
    ensures
        ({
            let bucket = Bucket { holder: merchant, token };
            let snapshot = reconciled(token, earnings_of(s.merchants, bucket))->Ok_0;
            &&& snapshot.computed_balance == balance_of(s.merchants, bucket)
            &&& snapshot.computed_balance == snapshot.total_accruals
                - snapshot.total_withdrawals - snapshot.total_refunds
        }),
{
    let bucket = Bucket { holder: merchant, token };
    let accruals = earnings_of(s.merchants, bucket).accruals;
    assert(bucket_reconciles(s.merchants, bucket));
    let all = seq![accruals.interval, accruals.usage, accruals.one_off];
    let two = all.drop_last();
    let one = two.drop_last();
    assert(one.drop_last() =~= Seq::<i128>::empty());
    assert(checked_total(one.drop_last()) == Ok::<i128, Error>(0));
    assert(checked_total(one) == Ok::<i128, Error>(accruals.interval));
    assert(checked_total(two) == amount_of(accruals.interval + accruals.usage));
}

} // verus!
