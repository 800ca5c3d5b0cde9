//! What holds after any run of operations on a vault that started empty.
use crate::accounting::{
    every_operation_is_accounted_for, fresh_vault_is_accounted, is_accounted,
};
use crate::admin::charged_in_turn;
use crate::charge_core::has_period;
use crate::funds::{
    balances_total, deals_with_others, every_operation_conserves_funds, net_inflow, owed,
};
use crate::operation::{after, is_possible, is_refused, Moment, Operation};
use crate::soundness::{
    batches_keep_the_vault_sound, cancellation_is_final,
    every_operation_keeps_the_history_consistent, every_operation_keeps_the_vault_sound,
    fresh_vault_is_sound, is_sound,
};
use crate::statement_laws::consistent;
use crate::statements::counted;
use crate::types::{Address, OraclePrice};
use crate::vault::{fresh, VaultState};
use vstd::prelude::*;

verus! {

/// One operation and when it runs.
pub struct Step {
    pub moment: Moment,
    pub operation: Operation,
}

/// The state after a run of operations.
pub open spec fn run(s: VaultState, steps: Seq<Step>) -> VaultState
    decreases steps.len(),
{
    if steps.len() == 0 {
        s
    } else {
        after(run(s, steps.drop_last()), steps.last().moment, steps.last().operation)
    }
}

/// Each operation of a run is possible in the state that the ones before it leave.
pub open spec fn can_run(s: VaultState, steps: Seq<Step>) -> bool
    decreases steps.len(),
{
    steps.len() > 0 ==> {
        &&& can_run(s, steps.drop_last())
        &&& is_possible(run(s, steps.drop_last()), steps.last().operation)
    }
}

/// Each operation of a run is of the vault at one address and moves tokens between it and
/// others.
pub open spec fn runs_at(steps: Seq<Step>, contract: Address) -> bool {
    forall|i: int|
        0 <= i < steps.len() ==> (#[trigger] steps[i]).moment.contract == contract
            && deals_with_others(steps[i].moment, steps[i].operation)
}

/// Statements can be numbered in every state of a run.
pub open spec fn numbers_last(s: VaultState, steps: Seq<Step>) -> bool
    decreases steps.len(),
{
    steps.len() > 0 ==> {
        &&& numbers_last(s, steps.drop_last())
        &&& forall|id: u32| #[trigger]
            counted(run(s, steps.drop_last()).statements.next, id) < u32::MAX
    }
}

/// A vault is sound after any run.
pub proof fn every_run_is_sound(s: VaultState, steps: Seq<Step>)
    requires
        is_sound(s),
        can_run(s, steps),
    ensures
        is_sound(run(s, steps)),
    decreases steps.len(),
{
    if steps.len() > 0 {
        every_run_is_sound(s, steps.drop_last());
        every_operation_keeps_the_vault_sound(
            run(s, steps.drop_last()),
            steps.last().moment,
            steps.last().operation,
        );
    }
}

/// The vault is solvent after any run from its start: in every token it owes exactly what
/// the transfers that it asked for brought in, less what they took out.
pub proof fn every_run_is_solvent(steps: Seq<Step>, contract: Address, token: Address)
    requires
        can_run(fresh(), steps),
        runs_at(steps, contract),
    ensures
        owed(run(fresh(), steps), token) == net_inflow(
            run(fresh(), steps).outbox,
            contract,
            token,
        ),
    decreases steps.len(),
{
    if steps.len() == 0 {
        assert(fresh().merchants.balances.dom().len() == 0);
        assert(balances_total(fresh().merchants.balances, token) == 0);
    } else {
        let front = steps.drop_last();
        assert forall|i: int| 0 <= i < front.len() implies (#[trigger] front[i]).moment.contract
            == contract && deals_with_others(front[i].moment, front[i].operation) by {
            assert(front[i] == steps[i]);
        }
        every_run_is_solvent(front, contract, token);
        fresh_vault_is_sound();
        every_run_is_sound(fresh(), front);
        assert(steps[steps.len() - 1] == steps.last());
        every_operation_conserves_funds(
            run(fresh(), front),
            steps.last().moment,
            steps.last().operation,
            token,
        );
    }
}

/// After any run from the start, as long as statements can be numbered, the billing history
/// is consistent and accounts for everything that was charged.
pub proof fn every_run_is_accounted_for(steps: Seq<Step>)
    requires
        can_run(fresh(), steps),
        numbers_last(fresh(), steps),
    ensures
        consistent(run(fresh(), steps).statements),
        is_accounted(run(fresh(), steps)),
    decreases steps.len(),
{
    if steps.len() == 0 {
        fresh_vault_is_accounted();
    } else {
        let front = steps.drop_last();
        every_run_is_accounted_for(front);
        fresh_vault_is_sound();
        every_run_is_sound(fresh(), front);
        let before = run(fresh(), front);
        let last = steps.last();
        every_operation_is_accounted_for(before, last.moment, last.operation);
        every_operation_keeps_the_history_consistent(before, last.moment, last.operation);
    }
}

/// A subscription that is cancelled is cancelled after any run.
pub proof fn no_run_revives_a_cancelled_subscription(s: VaultState, steps: Seq<Step>, id: u32)
    requires
        is_sound(s),
        can_run(s, steps),
        s.subscriptions.contains_key(id),
        s.subscriptions[id].status is Cancelled,
    ensures
        run(s, steps).subscriptions.contains_key(id),
        run(s, steps).subscriptions[id].status is Cancelled,
    decreases steps.len(),
{
    if steps.len() > 0 {
        let front = steps.drop_last();
        no_run_revives_a_cancelled_subscription(s, front, id);
        every_run_is_sound(s, front);
        cancellation_is_final(run(s, front), steps.last().moment, steps.last().operation, id);
    }
}

/// The charges of a batch, one after the other.
pub open spec fn charges_of(ids: Seq<u32>, moment: Moment, quote: OraclePrice) -> Seq<Step> {
    Seq::new(
        ids.len(),
        |i: int|
            Step {
                moment,
                operation: Operation::ChargeInterval {
                    subscription_id: ids[i],
                    idempotency_key: None,
                    quote,
                },
            },
    )
}

/// A batch is a run of single charges at one moment, so that whatever holds after any run
/// holds after a batch.
pub proof fn batch_is_a_run(s: VaultState, ids: Seq<u32>, moment: Moment, quote: OraclePrice)
    requires
        is_sound(s),
        !s.config.emergency_stop,
        forall|i: int| 0 <= i < ids.len() ==> has_period(s, #[trigger] ids[i]),
    ensures
        can_run(s, charges_of(ids, moment, quote)),
        run(s, charges_of(ids, moment, quote)) == charged_in_turn(
            s,
            ids,
            moment.now,
            quote,
        ).0,
    decreases ids.len(),
{
    let steps = charges_of(ids, moment, quote);
    if ids.len() > 0 {
        let front = ids.drop_last();
        assert(steps.drop_last() =~= charges_of(front, moment, quote));
        assert forall|i: int| 0 <= i < front.len() implies has_period(s, #[trigger] front[i]) by {
            assert(front[i] == ids[i]);
        }
        batch_is_a_run(s, front, moment, quote);
        batches_keep_the_vault_sound(s, front, moment, quote);
        assert(has_period(s, ids[ids.len() - 1]));
        reveal(is_refused);
    }
}

} // verus!
