//! How a subscription runs its course: which operations touch which part of it, one by one
//! and over any run.
use crate::charge_core::{interval_charge, usage_charge};
use crate::charge_laws::interval_must_pass;
use crate::operation::{after, is_refused, Moment, Operation};
use crate::runs::{run, Step};
use crate::soundness::{changes_subscription, creates_subscription, is_charge, lemma_untouched};
use crate::subscription::one_off_charge;
use crate::types::{Subscription, SubscriptionStatus};
use crate::vault::VaultState;
use vstd::prelude::*;

verus! {

/// Every subscription stands under a number that was given out.
pub open spec fn is_numbered(s: VaultState) -> bool {
    forall|id: u32| #[trigger] s.subscriptions.contains_key(id) ==> id < s.next_id
}

/// The operation is an interval charge of the subscription.
pub open spec fn charges_an_interval(op: Operation, id: u32) -> bool {
    op is ChargeInterval && op->ChargeInterval_subscription_id == id
}

/// The operation charges the subscription, by interval, by usage or once.
pub open spec fn charges(op: Operation, id: u32) -> bool {
    ||| charges_an_interval(op, id)
    ||| op is ChargeUsage && op->ChargeUsage_subscription_id == id
    ||| op is ChargeOneOff && op->ChargeOneOff_subscription_id == id
}

/// The operation moves the subscription to another version of its plan.
pub open spec fn migrates(op: Operation, id: u32) -> bool {
    op is MigrateSubscriptionToPlan && op->MigrateSubscriptionToPlan_subscription_id == id
}

/// The operation resumes the subscription.
pub open spec fn resumes(op: Operation, id: u32) -> bool {
    op is ResumeSubscription && op->ResumeSubscription_subscription_id == id
}

/// The operation pauses the subscription.
pub open spec fn pauses(op: Operation, id: u32) -> bool {
    op is PauseSubscription && op->PauseSubscription_subscription_id == id
}

/// The operation cancels the subscription.
pub open spec fn cancels(op: Operation, id: u32) -> bool {
    op is CancelSubscription && op->CancelSubscription_subscription_id == id
}

/// The operation pays prepaid money of the subscription back.
pub open spec fn pays_back(op: Operation, id: u32) -> bool {
    ||| op is WithdrawSubscriberFunds && op->WithdrawSubscriberFunds_subscription_id == id
    ||| op is PartialRefund && op->PartialRefund_subscription_id == id
}

/// The operation deposits for the subscription.
pub open spec fn deposits(op: Operation, id: u32) -> bool {
    op is DepositFunds && op->DepositFunds_subscription_id == id
}

/// All that an operation may do to a subscription.
spec fn runs_its_course(
    m: Moment,
    op: Operation,
    id: u32,
    before: Subscription,
    now: Subscription,
) -> bool {
    &&& now.subscriber == before.subscriber
    &&& now.merchant == before.merchant
    &&& now.token == before.token
    &&& !migrates(op, id) ==> {
        &&& now.amount == before.amount
        &&& now.interval_seconds == before.interval_seconds
        &&& now.usage_enabled == before.usage_enabled
        &&& now.lifetime_cap == before.lifetime_cap
    }
    &&& now.last_payment_timestamp != before.last_payment_timestamp ==> {
        &&& charges_an_interval(op, id)
        &&& now.last_payment_timestamp == m.now
        &&& m.now >= before.last_payment_timestamp + before.interval_seconds
    }
    &&& now.prepaid_balance < before.prepaid_balance ==> charges(op, id) || pays_back(op, id)
    &&& now.prepaid_balance > before.prepaid_balance ==> deposits(op, id)
    &&& now.lifetime_charged != before.lifetime_charged ==> charges(op, id)
    &&& now.lifetime_charged >= before.lifetime_charged
    &&& charges(op, id) ==> now.prepaid_balance + now.lifetime_charged == before.prepaid_balance
        + before.lifetime_charged
    &&& now.status != before.status ==> match now.status {
        SubscriptionStatus::Active => resumes(op, id) || (charges_an_interval(op, id)
            && before.status != SubscriptionStatus::Paused),
        SubscriptionStatus::Paused => pauses(op, id),
        SubscriptionStatus::Cancelled => cancels(op, id) || (charges(op, id) && !(op
            is ChargeOneOff) && before.lifetime_cap is Some && before.status
            != SubscriptionStatus::Paused),
        SubscriptionStatus::GracePeriod => charges_an_interval(op, id) && before.status
            != SubscriptionStatus::Paused,
        SubscriptionStatus::InsufficientBalance => charges(op, id) && !(op is ChargeOneOff)
            && before.status != SubscriptionStatus::Paused,
    }
}

/// No operation takes a subscription away, and each runs its course.
spec fn all_run_their_course(s: VaultState, m: Moment, op: Operation) -> bool {
    let t = after(s, m, op);
    &&& t.next_id >= s.next_id
    &&& is_numbered(s) ==> is_numbered(t)
    &&& forall|id: u32|
        #![trigger t.subscriptions[id]]
        s.subscriptions.contains_key(id) && id < s.next_id ==> t.subscriptions.contains_key(id)
            && runs_its_course(m, op, id, s.subscriptions[id], t.subscriptions[id])
}

proof fn lemma_interval_charges(s: VaultState, m: Moment, op: Operation)
    requires
        op is ChargeInterval,
    ensures
        all_run_their_course(s, m, op),
{
    let id = op->ChargeInterval_subscription_id;
    let key = op->idempotency_key;
    let quote = op->quote;
    assert(after(s, m, op) == s || after(s, m, op) == interval_charge(s, id, m.now, key, quote).0);
    interval_must_pass(s, id, m.now, key, quote);
}

proof fn lemma_usage_charges(s: VaultState, m: Moment, op: Operation)
    requires
        op is ChargeUsage,
    ensures
        all_run_their_course(s, m, op),
{
    let t = usage_charge(
        s,
        op->ChargeUsage_subscription_id,
        op->usage_amount,
        op->reference,
        m.now,
    ).0;
    assert(after(s, m, op) == s || after(s, m, op) == t);
}

proof fn lemma_one_off_charges(s: VaultState, m: Moment, op: Operation)
    requires
        op is ChargeOneOff,
    ensures
        all_run_their_course(s, m, op),
{
    let t = one_off_charge(
        s,
        op->ChargeOneOff_subscription_id,
        op->ChargeOneOff_merchant,
        op->ChargeOneOff_amount,
        m.now,
    ).0;
    assert(after(s, m, op) == s || after(s, m, op) == t);
}

proof fn lemma_creations(s: VaultState, m: Moment, op: Operation)
    requires
        creates_subscription(op),
    ensures
        all_run_their_course(s, m, op),
{
    reveal(is_refused);
    let t = after(s, m, op);
    assert(t == s || s.next_id < u32::MAX && t.next_id == s.next_id + 1 && t.subscriptions
        == s.subscriptions.insert(s.next_id, t.subscriptions[s.next_id]));
}

proof fn lemma_changes(s: VaultState, m: Moment, op: Operation)
    requires
        changes_subscription(op),
        !is_charge(op),
    ensures
        all_run_their_course(s, m, op),
{
    reveal(is_refused);
    match op {
        Operation::DepositFunds { .. } => {},
        Operation::MigrateSubscriptionToPlan { .. } => {},
        Operation::CancelSubscription { .. } => {},
        Operation::PauseSubscription { .. } => {},
        Operation::ResumeSubscription { .. } => {},
        Operation::WithdrawSubscriberFunds { .. } => {},
        Operation::PartialRefund { .. } => {},
        _ => {},
    }
}

proof fn lemma_course(s: VaultState, m: Moment, op: Operation)
    ensures
        all_run_their_course(s, m, op),
{
    if op is ChargeInterval {
        lemma_interval_charges(s, m, op);
    } else if op is ChargeUsage {
        lemma_usage_charges(s, m, op);
    } else if op is ChargeOneOff {
        lemma_one_off_charges(s, m, op);
    } else if creates_subscription(op) {
        lemma_creations(s, m, op);
    } else if changes_subscription(op) {
        lemma_changes(s, m, op);
    } else {
        lemma_untouched(s, m, op);
    }
}

/// The parties of a subscription never change, whatever is done, and its terms change only
/// when it moves to another version of its plan.
pub proof fn parties_and_terms_stay(s: VaultState, m: Moment, op: Operation, id: u32)
    requires
        is_numbered(s),
        s.subscriptions.contains_key(id),
    ensures
        ({
            let before = s.subscriptions[id];
            let t = after(s, m, op);
            let now = t.subscriptions[id];
            &&& t.subscriptions.contains_key(id)
            &&& now.subscriber == before.subscriber
            &&& now.merchant == before.merchant
            &&& now.token == before.token
            &&& !migrates(op, id) ==> {
                &&& now.amount == before.amount
                &&& now.interval_seconds == before.interval_seconds
                &&& now.usage_enabled == before.usage_enabled
                &&& now.lifetime_cap == before.lifetime_cap
            }
        }),
{
    lemma_course(s, m, op);
}

/// The time of the last payment moves only by an interval charge of the subscription, to the
/// time of the charge, and only once the interval has passed since.
pub proof fn last_payment_moves_by_whole_intervals(
    s: VaultState,
    m: Moment,
    op: Operation,
    id: u32,
)
    requires
        is_numbered(s),
        s.subscriptions.contains_key(id),
    ensures
        ({
            let before = s.subscriptions[id];
            let now = after(s, m, op).subscriptions[id];
            now.last_payment_timestamp != before.last_payment_timestamp ==> {
                &&& charges_an_interval(op, id)
                &&& now.last_payment_timestamp == m.now
                &&& m.now >= before.last_payment_timestamp + before.interval_seconds
            }
        }),
{
    lemma_course(s, m, op);
}

/// The prepaid balance falls only by a charge or by money paid back, and rises only by a
/// deposit; the charged total rises only by a charge, by as much as the balance falls, and
/// never falls.
pub proof fn balance_falls_only_by_charges_and_refunds(
    s: VaultState,
    m: Moment,
    op: Operation,
    id: u32,
)
    requires
        is_numbered(s),
        s.subscriptions.contains_key(id),
    ensures
        ({
            let before = s.subscriptions[id];
            let now = after(s, m, op).subscriptions[id];
            &&& now.prepaid_balance < before.prepaid_balance ==> charges(op, id) || pays_back(
                op,
                id,
            )
            &&& now.prepaid_balance > before.prepaid_balance ==> deposits(op, id)
            &&& now.lifetime_charged != before.lifetime_charged ==> charges(op, id)
            &&& now.lifetime_charged >= before.lifetime_charged
            &&& charges(op, id) ==> now.prepaid_balance + now.lifetime_charged
                == before.prepaid_balance + before.lifetime_charged
        }),
{
    lemma_course(s, m, op);
}

/// A status changes only by what names it: to paused by pausing, to active by resuming or by
/// a paid interval, to cancelled by cancelling or by a charge that meets the cap, into grace
/// by an interval charge and to underfunded by a charge.
pub proof fn statuses_change_only_by_name(s: VaultState, m: Moment, op: Operation, id: u32)
    requires
        is_numbered(s),
        s.subscriptions.contains_key(id),
    ensures
        ({
            let before = s.subscriptions[id];
            let now = after(s, m, op).subscriptions[id];
            now.status != before.status ==> match now.status {
                SubscriptionStatus::Active => resumes(op, id) || charges_an_interval(op, id),
                SubscriptionStatus::Paused => pauses(op, id),
                SubscriptionStatus::Cancelled => cancels(op, id) || (charges(op, id) && !(op
                    is ChargeOneOff) && before.lifetime_cap is Some),
                SubscriptionStatus::GracePeriod => charges_an_interval(op, id),
                SubscriptionStatus::InsufficientBalance => charges(op, id) && !(op
                    is ChargeOneOff),
            }
        }),
{
    lemma_course(s, m, op);
}

/// A paused subscription stays paused until it is resumed or cancelled: no charge, deposit,
/// migration or anything else changes its status.
pub proof fn paused_stays_paused(s: VaultState, m: Moment, op: Operation, id: u32)
    requires
        is_numbered(s),
        s.subscriptions.contains_key(id),
        s.subscriptions[id].status == SubscriptionStatus::Paused,
        !resumes(op, id),
        !cancels(op, id),
    ensures
        after(s, m, op).subscriptions[id].status == SubscriptionStatus::Paused,
{
    lemma_course(s, m, op);
}

/// Numbers are given out in order: an operation keeps every subscription under a number that
/// was given out, and takes no number back.
pub proof fn numbers_stay_in_order(s: VaultState, m: Moment, op: Operation)
    requires
        is_numbered(s),
    ensures
        is_numbered(after(s, m, op)),
        after(s, m, op).next_id >= s.next_id,
{
    lemma_course(s, m, op);
}

/// Over any run in which a subscription does not move to another version of its plan, the
/// time of its last payment stays or advances by at least its interval.
pub proof fn runs_pay_intervals_apart(s: VaultState, steps: Seq<Step>, id: u32)
    requires
        is_numbered(s),
        s.subscriptions.contains_key(id),
        forall|i: int| 0 <= i < steps.len() ==> !migrates((#[trigger] steps[i]).operation, id),
    ensures
        ({
            let before = s.subscriptions[id];
            let t = run(s, steps);
            let now = t.subscriptions[id];
            &&& is_numbered(t)
            &&& t.subscriptions.contains_key(id)
            &&& now.interval_seconds == before.interval_seconds
            &&& now.last_payment_timestamp == before.last_payment_timestamp
                || now.last_payment_timestamp >= before.last_payment_timestamp
                + before.interval_seconds
        }),
    decreases steps.len(),
{
    if steps.len() > 0 {
        let front = steps.drop_last();
        assert forall|i: int| 0 <= i < front.len() implies !migrates(
            (#[trigger] front[i]).operation,
            id,
        ) by {
            assert(front[i] == steps[i]);
        }
        runs_pay_intervals_apart(s, front, id);
        let mid = run(s, front);
        let last = steps[steps.len() - 1];
        assert(last == steps.last());
        numbers_stay_in_order(mid, last.moment, last.operation);
        parties_and_terms_stay(mid, last.moment, last.operation, id);
        last_payment_moves_by_whole_intervals(mid, last.moment, last.operation, id);
    }
}

/// Over any run that neither resumes nor cancels it, a paused subscription stays paused.
pub proof fn runs_leave_the_paused_paused(s: VaultState, steps: Seq<Step>, id: u32)
    requires
        is_numbered(s),
        s.subscriptions.contains_key(id),
        s.subscriptions[id].status == SubscriptionStatus::Paused,
        forall|i: int|
            0 <= i < steps.len() ==> !resumes((#[trigger] steps[i]).operation, id) && !cancels(
                steps[i].operation,
                id,
            ),
    ensures
        is_numbered(run(s, steps)),
        run(s, steps).subscriptions.contains_key(id),
        run(s, steps).subscriptions[id].status == SubscriptionStatus::Paused,
    decreases steps.len(),
{
    if steps.len() > 0 {
        let front = steps.drop_last();
        assert forall|i: int| 0 <= i < front.len() implies !resumes(
            (#[trigger] front[i]).operation,
            id,
        ) && !cancels(front[i].operation, id) by {
            assert(front[i] == steps[i]);
        }
        runs_leave_the_paused_paused(s, front, id);
        let mid = run(s, front);
        let last = steps[steps.len() - 1];
        assert(last == steps.last());
        numbers_stay_in_order(mid, last.moment, last.operation);
        parties_and_terms_stay(mid, last.moment, last.operation, id);
        paused_stays_paused(mid, last.moment, last.operation, id);
    }
}

} // verus!
