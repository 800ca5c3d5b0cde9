//! The billing history accounts for every amount that was charged.
use crate::charge_core::{already_processed, interval_charge, usage_charge};
use crate::operation::{after, is_possible, is_refused, Moment, Operation};
use crate::oracle::charge_amount;
use crate::soundness::{
    creates_subscription, is_charge, is_sound, is_solid, lemma_creation, lemma_untouched,
};
use crate::statement_laws::{
    appended_statement_is_newest, billed_total, compaction_conserves_totals, consistent,
    lemma_other_totals_after_append, lemma_other_totals_after_compaction, lemma_same_total,
};
use crate::statements::{counted, keep_threshold, statement_row, with_statement};
use crate::subscription::one_off_charge;
use crate::types::{Address, BillingChargeKind, Bytes32, OraclePrice};
use crate::vault::{fresh, VaultState};
use vstd::prelude::*;

verus! {

/// What was billed to each subscription, in detail or in its aggregate, comes to what it
/// counts as charged; nothing was billed under an id that is not given out.
pub open spec fn is_accounted(s: VaultState) -> bool {
    forall|id: u32| #[trigger]
        billed_total(s.statements, id) == match s.subscriptions.get(id) {
            Some(sub) => sub.lifetime_charged as int,
            None => 0,
        }
}

/// Nothing is billed before the initialization, and nothing is charged.
pub proof fn fresh_vault_is_accounted()
    ensures
        is_accounted(fresh()),
        consistent(fresh().statements),
{
    let s = fresh();
    assert forall|id: u32| #[trigger] billed_total(s.statements, id) == 0 by {
        assert(counted(s.statements.next, id) == 0);
    }
}

/// One charge of `amount` was counted and billed, and nothing else.
proof fn lemma_one_charge(
    s: VaultState,
    t: VaultState,
    id: u32,
    amount: i128,
    merchant: Address,
    kind: BillingChargeKind,
    period_start: u64,
    period_end: u64,
    now: u64,
)
    requires
        is_accounted(s),
        consistent(s.statements),
        counted(s.statements.next, id) < u32::MAX,
        s.subscriptions.contains_key(id),
        t.subscriptions == s.subscriptions.insert(id, t.subscriptions[id]),
        t.subscriptions[id].lifetime_charged == s.subscriptions[id].lifetime_charged + amount,
        t.statements == with_statement(
            s.statements,
            statement_row(
                s.statements,
                id,
                amount,
                merchant,
                kind,
                period_start,
                period_end,
                now,
            ),
        ),
    ensures
        is_accounted(t),
{
    appended_statement_is_newest(
        s.statements,
        id,
        amount,
        merchant,
        kind,
        period_start,
        period_end,
        now,
    );
    assert forall|other: u32| #[trigger]
        billed_total(t.statements, other) == match t.subscriptions.get(other) {
            Some(sub) => sub.lifetime_charged as int,
            None => 0,
        } by {
        assert(billed_total(s.statements, other) == match s.subscriptions.get(other) {
            Some(sub) => sub.lifetime_charged as int,
            None => 0,
        });
        if other != id {
            lemma_other_totals_after_append(
                s.statements,
                id,
                amount,
                merchant,
                kind,
                period_start,
                period_end,
                now,
                other,
            );
        }
    }
}

/// Neither what is billed nor what is charged changed.
proof fn lemma_no_charge(s: VaultState, t: VaultState)
    requires
        is_accounted(s),
        t.statements == s.statements,
        forall|id: u32| #[trigger]
            t.subscriptions.contains_key(id) <==> s.subscriptions.contains_key(id),
        forall|id: u32|
            #![trigger t.subscriptions[id]]
            s.subscriptions.contains_key(id) ==> t.subscriptions[id].lifetime_charged
                == s.subscriptions[id].lifetime_charged,
    ensures
        is_accounted(t),
{
    assert forall|id: u32| #[trigger]
        billed_total(t.statements, id) == match t.subscriptions.get(id) {
            Some(sub) => sub.lifetime_charged as int,
            None => 0,
        } by {
        assert(billed_total(s.statements, id) == match s.subscriptions.get(id) {
            Some(sub) => sub.lifetime_charged as int,
            None => 0,
        });
        assert(t.subscriptions.contains_key(id) <==> s.subscriptions.contains_key(id));
    }
}

proof fn lemma_interval_charge_is_accounted(
    s: VaultState,
    id: u32,
    now: u64,
    key: Option<Bytes32>,
    quote: OraclePrice,
)
    requires
        is_sound(s),
        is_accounted(s),
        consistent(s.statements),
        counted(s.statements.next, id) < u32::MAX,
    ensures
        is_accounted(interval_charge(s, id, now, key, quote).0),
{
    let (t, outcome) = interval_charge(s, id, now, key, quote);
    if outcome is Ok && !already_processed(s, id, key) {
        let sub = s.subscriptions[id];
        assert(s.subscriptions.contains_key(id));
        assert(is_solid(sub));
        let amount = charge_amount(s, sub, quote, now)->Ok_0;
        assert(t.subscriptions =~= s.subscriptions.insert(id, t.subscriptions[id]));
        lemma_one_charge(
            s,
            t,
            id,
            amount,
            sub.merchant,
            BillingChargeKind::Interval,
            sub.last_payment_timestamp,
            now,
            now,
        );
    } else {
        lemma_no_charge(s, t);
    }
}

proof fn lemma_usage_charge_is_accounted(
    s: VaultState,
    id: u32,
    amount: i128,
    reference: Seq<u8>,
    now: u64,
)
    requires
        is_sound(s),
        is_accounted(s),
        consistent(s.statements),
        counted(s.statements.next, id) < u32::MAX,
    ensures
        is_accounted(usage_charge(s, id, amount, reference, now).0),
{
    let (t, outcome) = usage_charge(s, id, amount, reference, now);
    if outcome is Ok {
        let sub = s.subscriptions[id];
        assert(s.subscriptions.contains_key(id));
        assert(is_solid(sub));
        assert(t.subscriptions =~= s.subscriptions.insert(id, t.subscriptions[id]));
        lemma_one_charge(
            s,
            t,
            id,
            amount,
            sub.merchant,
            BillingChargeKind::Usage,
            now,
            now,
            now,
        );
    } else {
        lemma_no_charge(s, t);
    }
}

proof fn lemma_one_off_charge_is_accounted(
    s: VaultState,
    id: u32,
    merchant: Address,
    amount: i128,
    now: u64,
)
    requires
        is_sound(s),
        is_accounted(s),
        consistent(s.statements),
        counted(s.statements.next, id) < u32::MAX,
    ensures
        is_accounted(one_off_charge(s, id, merchant, amount, now).0),
{
    let (t, outcome) = one_off_charge(s, id, merchant, amount, now);
    if outcome is Ok {
        assert(s.subscriptions.contains_key(id));
        assert(is_solid(s.subscriptions[id]));
        assert(t.subscriptions =~= s.subscriptions.insert(id, t.subscriptions[id]));
        lemma_one_charge(
            s,
            t,
            id,
            amount,
            merchant,
            BillingChargeKind::OneOff,
            now,
            now,
            now,
        );
    } else {
        lemma_no_charge(s, t);
    }
}

/// Every operation keeps the account: whatever happens, as long as sequence numbers last,
/// the statements of a subscription and its aggregate together come to exactly what the
/// subscription was charged.
pub proof fn every_operation_is_accounted_for(s: VaultState, m: Moment, op: Operation)
    requires
        is_sound(s),
        is_possible(s, op),
        is_accounted(s),
        consistent(s.statements),
        forall|id: u32| #[trigger] counted(s.statements.next, id) < u32::MAX,
    ensures
        is_accounted(after(s, m, op)),
{
    let t = after(s, m, op);
    match op {
        Operation::ChargeOneOff { subscription_id, merchant, amount } => {
            lemma_one_off_charge_is_accounted(s, subscription_id, merchant, amount, m.now);
        },
        Operation::ChargeInterval { subscription_id, idempotency_key, quote } => {
            lemma_interval_charge_is_accounted(
                s,
                subscription_id,
                m.now,
                idempotency_key,
                quote,
            );
        },
        Operation::ChargeUsage { subscription_id, usage_amount, reference } => {
            lemma_usage_charge_is_accounted(
                s,
                subscription_id,
                usage_amount,
                reference,
                m.now,
            );
        },
        Operation::CompactBillingStatements { subscription_id, keep_recent_override, .. } => {
            lemma_compaction_is_accounted(s, m, op, subscription_id, keep_recent_override);
        },
        Operation::SetBillingRetention { .. } => {
            lemma_retention_is_accounted(s, m, op);
        },
        _ => {
            lemma_other_operations_are_accounted(s, m, op);
        },
    }
}

proof fn lemma_compaction_is_accounted(
    s: VaultState,
    m: Moment,
    op: Operation,
    id: u32,
    keep_recent_override: Option<u32>,
)
    requires
        op matches Operation::CompactBillingStatements {
            subscription_id,
            keep_recent_override: keep,
            ..
        } && subscription_id == id && keep == keep_recent_override,
        is_accounted(s),
        consistent(s.statements),
    ensures
        is_accounted(after(s, m, op)),
{
    let t = after(s, m, op);
    let keep = keep_threshold(s.statements, keep_recent_override);
    lemma_untouched(s, m, op);
    if !is_refused(s, m, op) {
        compaction_conserves_totals(s.statements, id, keep);
        assert forall|other: u32| #[trigger]
            billed_total(t.statements, other) == match t.subscriptions.get(other) {
                Some(sub) => sub.lifetime_charged as int,
                None => 0,
            } by {
            assert(billed_total(s.statements, other) == match s.subscriptions.get(other) {
                Some(sub) => sub.lifetime_charged as int,
                None => 0,
            });
            if other != id {
                lemma_other_totals_after_compaction(s.statements, id, keep, other);
            }
        }
    }
}

proof fn lemma_retention_is_accounted(s: VaultState, m: Moment, op: Operation)
    requires
        op is SetBillingRetention,
        is_accounted(s),
    ensures
        is_accounted(after(s, m, op)),
{
    let t = after(s, m, op);
    lemma_untouched(s, m, op);
    assert forall|id: u32| #[trigger]
        billed_total(t.statements, id) == match t.subscriptions.get(id) {
            Some(sub) => sub.lifetime_charged as int,
            None => 0,
        } by {
        assert(billed_total(s.statements, id) == match s.subscriptions.get(id) {
            Some(sub) => sub.lifetime_charged as int,
            None => 0,
        });
        lemma_same_total(s.statements, t.statements, id);
    }
}

proof fn lemma_other_operations_are_accounted(s: VaultState, m: Moment, op: Operation)
    requires
        is_sound(s),
        is_accounted(s),
        !is_charge(op),
        !(op is CompactBillingStatements),
        !(op is SetBillingRetention),
    ensures
        is_accounted(after(s, m, op)),
{
    let t = after(s, m, op);
    assert(t.statements == s.statements);
    lemma_untouched(s, m, op);
    if creates_subscription(op) {
        lemma_creation(s, m, op);
        if t.subscriptions != s.subscriptions {
            let new = s.next_id;
            assert(!s.subscriptions.contains_key(new));
            assert forall|id: u32| #[trigger]
                billed_total(t.statements, id) == match t.subscriptions.get(id) {
                    Some(sub) => sub.lifetime_charged as int,
                    None => 0,
                } by {
                assert(billed_total(s.statements, id) == match s.subscriptions.get(id) {
                    Some(sub) => sub.lifetime_charged as int,
                    None => 0,
                });
            }
        } else {
            lemma_no_charge(s, t);
        }
    } else {
        reveal(is_refused);
        lemma_no_charge(s, t);
    }
}

} // verus!
