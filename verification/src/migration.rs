//! Exports of the vault's configuration and subscriptions for migration tooling.
use crate::admin::{admin_refusal, get_min_topup, require_admin_auth};
use crate::events::{ContractSnapshotEvent, Effect, Event, MigrationExportEvent, Outbox};
use crate::queries::get_subscription;
use crate::tables::{window, IdMap};
use crate::types::{
    Address, Call, ContractSnapshot, Error, Subscription, SubscriptionSummary,
};
use crate::vault::{SubscriptionVault, VaultState};
use vstd::prelude::*;

verus! {

/// Most subscriptions in one export.
pub const MAX_EXPORT_LIMIT: u32 = 100;

/// Version of the layout in which the vault keeps its state.
pub const STORAGE_VERSION: u32 = 2;

/// The summary of a subscription.
pub open spec fn summary_of(subscription_id: u32, sub: Subscription) -> SubscriptionSummary {
    SubscriptionSummary {
        subscription_id,
        subscriber: sub.subscriber,
        merchant: sub.merchant,
        token: sub.token,
        amount: sub.amount,
        interval_seconds: sub.interval_seconds,
        last_payment_timestamp: sub.last_payment_timestamp,
        status: sub.status,
        prepaid_balance: sub.prepaid_balance,
        usage_enabled: sub.usage_enabled,
        lifetime_cap: sub.lifetime_cap,
        lifetime_charged: sub.lifetime_charged,
    }
}

/// Ids in `from..to` under which there is a subscription, ascending.
pub open spec fn present(subscriptions: Map<u32, Subscription>, from: int, to: int) -> Seq<u32>
    decreases to - from,
{
    if from >= to {
        Seq::empty()
    } else {
        let rest = present(subscriptions, from + 1, to);
        if subscriptions.contains_key(from as u32) {
            seq![from as u32] + rest
        } else {
            rest
        }
    }
}

/// Summaries of the subscriptions with the given ids.
pub open spec fn summarized(
    subscriptions: Map<u32, Subscription>,
    ids: Seq<u32>,
) -> Seq<SubscriptionSummary> {
    Seq::new(ids.len(), |i: int| summary_of(ids[i], subscriptions[ids[i]]))
}

fn summarize(subscription_id: u32, sub: &Subscription) -> (summary: SubscriptionSummary)
    ensures
        summary == summary_of(subscription_id, *sub),
{
    SubscriptionSummary {
        subscription_id,
        subscriber: sub.subscriber,
        merchant: sub.merchant,
        token: sub.token,
        amount: sub.amount,
        interval_seconds: sub.interval_seconds,
        last_payment_timestamp: sub.last_payment_timestamp,
        status: sub.status,
        prepaid_balance: sub.prepaid_balance,
        usage_enabled: sub.usage_enabled,
        lifetime_cap: sub.lifetime_cap,
        lifetime_charged: sub.lifetime_charged,
    }
}

/// Why the configuration is not exported.
pub open spec fn snapshot_refusal(s: VaultState, admin: Address) -> Option<Error> {
    match admin_refusal(s, admin) {
        Some(e) => Some(e),
        None => if s.config.token is None {
            Some(Error::NotFound)
        } else if s.config.min_topup is None {
            Some(Error::NotInitialized)
        } else {
            None
        },
    }
}

/// Export contract-level configuration for migration tooling. Admin only.
pub fn export_contract_snapshot(
    vault: &mut SubscriptionVault,
    call: &Call,
    admin: Address,
) -> (result: Result<ContractSnapshot, Error>)
    requires
        call.signed_by(admin),
    ensures
        match snapshot_refusal(old(vault)@, admin) {
            Some(e) => result == Err::<ContractSnapshot, Error>(e) && final(vault)@
                == old(vault)@,
            None => result == Ok::<ContractSnapshot, Error>(
                ContractSnapshot {
                    admin,
                    token: old(vault)@.config.token->Some_0,
                    min_topup: old(vault)@.config.min_topup->Some_0,
                    next_id: old(vault)@.next_id,
                    storage_version: STORAGE_VERSION,
                    timestamp: call.now,
                },
            ) && final(vault)@ == (VaultState {
                outbox: old(vault)@.outbox.push(
                    Effect::Publish(
                        Event::ContractSnapshot(
                            ContractSnapshotEvent { admin, timestamp: call.now },
                        ),
                    ),
                ),
                ..old(vault)@
            }),
        },
{
    match require_admin_auth(vault, call, &admin) {
        Err(e) => return Err(e),
        Ok(()) => {},
    }
    let token = match vault.config.token {
        Some(token) => token,
        None => return Err(Error::NotFound),
    };
    let min_topup: i128 = match get_min_topup(vault) {
        Ok(min_topup) => min_topup,
        Err(e) => return Err(e),
    };
    vault.outbox.publish(
        Event::ContractSnapshot(ContractSnapshotEvent { admin, timestamp: call.now }),
    );
    Ok(
        ContractSnapshot {
            admin,
            token,
            min_topup,
            next_id: vault.next_id,
            storage_version: STORAGE_VERSION,
            timestamp: call.now,
        },
    )
}

/// What is published about an export.
pub open spec fn export_event(
    admin: Address,
    start_id: u32,
    limit: u32,
    exported: nat,
    now: u64,
) -> Effect<Seq<u8>> {
    Effect::Publish(
        Event::MigrationExport(
            MigrationExportEvent {
                admin,
                start_id,
                limit,
                exported: exported as u32,
                timestamp: now,
            },
        ),
    )
}

/// Why a single subscription is not exported.
pub open spec fn export_refusal(s: VaultState, admin: Address, subscription_id: u32) -> Option<
    Error,
> {
    match admin_refusal(s, admin) {
        Some(e) => Some(e),
        None => if !s.subscriptions.contains_key(subscription_id) {
            Some(Error::NotFound)
        } else {
            None
        },
    }
}

/// Export a single subscription summary for migration tooling. Admin only.
pub fn export_subscription_summary(
    vault: &mut SubscriptionVault,
    call: &Call,
    admin: Address,
    subscription_id: u32,
) -> (result: Result<SubscriptionSummary, Error>)
    requires
        call.signed_by(admin),
    ensures
        match export_refusal(old(vault)@, admin, subscription_id) {
            Some(e) => result == Err::<SubscriptionSummary, Error>(e) && final(vault)@
                == old(vault)@,
            None => result == Ok::<SubscriptionSummary, Error>(
                summary_of(subscription_id, old(vault)@.subscriptions[subscription_id]),
            ) && final(vault)@ == (VaultState {
                outbox: old(vault)@.outbox.push(
                    export_event(admin, subscription_id, 1, 1, call.now),
                ),
                ..old(vault)@
            }),
        },
{
    match require_admin_auth(vault, call, &admin) {
        Err(e) => return Err(e),
        Ok(()) => {},
    }
    let sub = match get_subscription(vault, subscription_id) {
        Ok(sub) => sub,
        Err(e) => return Err(e),
    };
    vault.outbox.publish(
        Event::MigrationExport(
            MigrationExportEvent {
                admin,
                start_id: subscription_id,
                limit: 1,
                exported: 1,
                timestamp: call.now,
            },
        ),
    );
    Ok(summarize(subscription_id, &sub))
}

/// Why no summaries are exported.
pub open spec fn exports_refusal(s: VaultState, admin: Address, limit: u32) -> Option<Error> {
    match admin_refusal(s, admin) {
        Some(e) => Some(e),
        None => if limit > MAX_EXPORT_LIMIT {
            Some(Error::InvalidExportLimit)
        } else {
            None
        },
    }
}

/// The ids that an export of `limit` ids from `start_id` on finds.
pub open spec fn exported_ids(s: VaultState, start_id: u32, limit: u32) -> Seq<u32> {
    let end = if start_id + limit < s.next_id {
        start_id + limit
    } else {
        s.next_id as int
    };
    present(s.subscriptions, start_id as int, end)
}

/// Export a paginated list of subscription summaries. Admin only.
///
/// A page covers `limit` ids from `start_id` on; ids without a subscription are skipped. A
/// page without ids is not published.
pub fn export_subscription_summaries(
    vault: &mut SubscriptionVault,
    call: &Call,
    admin: Address,
    start_id: u32,
    limit: u32,
) -> (result: Result<Vec<SubscriptionSummary>, Error>)
    requires
        call.signed_by(admin),
    ensures
        match exports_refusal(old(vault)@, admin, limit) {
            Some(e) => result is Err && result->Err_0 == e && final(vault)@ == old(vault)@,
            None => {
                let ids = exported_ids(old(vault)@, start_id, limit);
                &&& result is Ok
                &&& result->Ok_0@ == summarized(old(vault)@.subscriptions, ids)
                &&& final(vault)@ == if limit == 0 || start_id >= old(vault)@.next_id {
                    old(vault)@
                } else {
                    VaultState {
                        outbox: old(vault)@.outbox.push(
                            export_event(admin, start_id, limit, ids.len(), call.now),
                        ),
                        ..old(vault)@
                    }
                }
            },
        },
{
    match require_admin_auth(vault, call, &admin) {
        Err(e) => return Err(e),
        Ok(()) => {},
    }
    if limit > MAX_EXPORT_LIMIT {
        return Err(Error::InvalidExportLimit);
    }
    let mut out: Vec<SubscriptionSummary> = Vec::new();
    if limit == 0 || start_id >= vault.next_id {
        assert(exported_ids(vault@, start_id, limit).len() == 0);
        assert(out@ =~= summarized(vault@.subscriptions, exported_ids(vault@, start_id, limit)));
        return Ok(out);
    }
    let end_id: u32 = if vault.next_id - start_id > limit {
        start_id + limit
    } else {
        vault.next_id
    };
    let ghost all = present(vault@.subscriptions, start_id as int, end_id as int);
    let ghost mut visited: Seq<u32> = Seq::empty();
    let mut exported: u32 = 0;
    let mut id: u32 = start_id;
    assert(all =~= visited + all);
    assert(out@ =~= summarized(vault@.subscriptions, visited));
    while id < end_id
        invariant
            start_id <= id <= end_id,
            exported <= id - start_id,
            exported == visited.len(),
            all == visited + present(vault@.subscriptions, id as int, end_id as int),
            out@ == summarized(vault@.subscriptions, visited),
            vault@ == old(vault)@,
        decreases end_id - id,
    {
        if let Some(sub) = vault.subscriptions.get(id) {
            out.push(summarize(id, &sub));
            exported = exported + 1;
            proof {
                let rest = present(vault@.subscriptions, id + 1, end_id as int);
                assert(visited + (seq![id] + rest) =~= visited.push(id) + rest);
                visited = visited.push(id);
            }
            assert(out@ =~= summarized(vault@.subscriptions, visited));
        }
        id = id + 1;
    }
    assert(all =~= visited);
    vault.outbox.publish(
        Event::MigrationExport(
            MigrationExportEvent { admin, start_id, limit, exported, timestamp: call.now },
        ),
    );
    Ok(out)
}

/// What a contract that only exports keeps, as contracts speak of it.
#[verifier::ext_equal]
pub struct MigrationState {
    pub admin: Option<Address>,
    pub next_id: u32,
    pub subscriptions: Map<u32, Subscription>,
    pub outbox: Seq<Effect<Seq<u8>>>,
}

/// A contract that only exports subscriptions.
pub struct MigrationContract {
    pub admin: Option<Address>,
    pub next_id: u32,
    pub subscriptions: IdMap<Subscription>,
    pub outbox: Outbox,
}

impl View for MigrationContract {
    type V = MigrationState;

    open spec fn view(&self) -> MigrationState {
        MigrationState {
            admin: self.admin,
            next_id: self.next_id,
            subscriptions: self.subscriptions@,
            outbox: self.outbox@,
        }
    }
}

/// Where an export that wanted `limit` of the ids `all` ended: after the last one that it
/// took, or at the end of the ids where there were too few.
pub open spec fn export_cursor(
    all: Seq<u32>,
    start_id: u32,
    next_id: u32,
    limit: u32,
) -> u32 {
    if all.len() >= limit {
        (all[limit - 1] + 1) as u32
    } else if start_id < next_id {
        next_id
    } else {
        start_id
    }
}

/// Why no batch is exported.
pub open spec fn batch_refusal(s: MigrationState, limit: u32) -> Option<Error> {
    if s.admin is None {
        Some(Error::NotInitialized)
    } else if limit == 0 || limit > MAX_EXPORT_LIMIT {
        Some(Error::InvalidExportLimit)
    } else {
        None
    }
}

impl MigrationContract {
    /// A contract without subscriptions.
    pub fn new() -> (contract: MigrationContract)
        ensures
            contract@ == (MigrationState {
                admin: None,
                next_id: 0,
                subscriptions: Map::empty(),
                outbox: Seq::empty(),
            }),
    {
        MigrationContract {
            admin: None,
            next_id: 0,
            subscriptions: IdMap::new(),
            outbox: Outbox::new(),
        }
    }

    /// Exports a paginated batch of subscriptions as summaries for migration. Returns the
    /// batch and the `next_start_id` cursor.
    pub fn export_snapshots(
        &mut self,
        call: &Call,
        start_id: u32,
        limit: u32,
    ) -> (result: Result<(Vec<SubscriptionSummary>, u32), Error>)
        requires
            old(self)@.admin matches Some(admin) ==> call.signed_by(admin),
        ensures
            match batch_refusal(old(self)@, limit) {
                Some(e) => result is Err && result->Err_0 == e && final(self)@ == old(self)@,
                None => {
                    let s = old(self)@;
                    let all = present(s.subscriptions, start_id as int, s.next_id as int);
                    let ids = window(all, 0, limit as int);
                    &&& result is Ok
                    &&& result->Ok_0.0@ == summarized(s.subscriptions, ids)
                    &&& result->Ok_0.1 == export_cursor(all, start_id, s.next_id, limit)
                    &&& final(self)@ == MigrationState {
                        outbox: s.outbox.push(
                            export_event(
                                s.admin->Some_0,
                                start_id,
                                limit,
                                ids.len(),
                                call.now,
                            ),
                        ),
                        ..s
                    }
                },
            },
    {
        let admin = match self.admin {
            Some(admin) => admin,
            None => return Err(Error::NotInitialized),
        };
        if limit == 0 || limit > MAX_EXPORT_LIMIT {
            return Err(Error::InvalidExportLimit);
        }
        let mut results: Vec<SubscriptionSummary> = Vec::new();
        let mut current_id: u32 = start_id;
        let mut collected_count: u32 = 0;
        let max_id: u32 = self.next_id;
        let ghost all = present(self@.subscriptions, start_id as int, max_id as int);
        let ghost mut visited: Seq<u32> = Seq::empty();
        assert(all =~= visited + all);
        assert(results@ =~= summarized(self@.subscriptions, visited));
        while collected_count < limit && current_id < max_id
            invariant
                start_id <= current_id,
                current_id <= max_id || current_id == start_id,
                collected_count <= limit,
                collected_count == visited.len(),
                collected_count > 0 ==> visited.last() < current_id,
                collected_count == limit ==> current_id == visited.last() + 1,
                0 < limit,
                all == visited + present(
                    self@.subscriptions,
                    current_id as int,
                    max_id as int,
                ),
                results@ == summarized(self@.subscriptions, visited),
                self@ == old(self)@,
            decreases max_id - current_id,
        {
            if let Some(sub) = self.subscriptions.get(current_id) {
                results.push(summarize(current_id, &sub));
                collected_count = collected_count + 1;
                proof {
                    let rest = present(self@.subscriptions, current_id + 1, max_id as int);
                    assert(visited + (seq![current_id] + rest) =~= visited.push(current_id)
                        + rest);
                    visited = visited.push(current_id);
                }
                assert(results@ =~= summarized(self@.subscriptions, visited));
            }
            current_id = current_id + 1;
        }
        proof {
            if collected_count < limit {
                assert(all =~= visited);
            }
            assert(window(all, 0, limit as int) =~= visited);
            if collected_count == limit {
                assert(all[limit - 1] == visited.last());
            }
        }
        self.outbox.publish(
            Event::MigrationExport(
                MigrationExportEvent {
                    admin,
                    start_id,
                    limit,
                    exported: collected_count,
                    timestamp: call.now,
                },
            ),
        );
        Ok((results, current_id))
    }
}

/// What follows an id are the ids above it.
proof fn lemma_present_suffix(subscriptions: Map<u32, Subscription>, from: int, to: int, i: int)
    requires
        0 <= from,
        to <= u32::MAX,
        0 <= i < present(subscriptions, from, to).len(),
    ensures
        from <= present(subscriptions, from, to)[i] < to,
        present(subscriptions, from, to).skip(i + 1) == present(
            subscriptions,
            present(subscriptions, from, to)[i] + 1,
            to,
        ),
    decreases to - from,
{
    let whole = present(subscriptions, from, to);
    let rest = present(subscriptions, from + 1, to);
    if subscriptions.contains_key(from as u32) {
        assert(whole == seq![from as u32] + rest);
        if i == 0 {
            assert(whole.skip(1) =~= rest);
        } else {
            lemma_present_suffix(subscriptions, from + 1, to, i - 1);
            assert(whole.skip(i + 1) =~= rest.skip(i));
            assert(whole[i] == rest[i - 1]);
        }
    } else {
        lemma_present_suffix(subscriptions, from + 1, to, i);
    }
}

/// Exporting on from the cursor leaves nothing out and repeats nothing: a batch and what is
/// there from its cursor on are together everything from its start on.
pub proof fn export_continues_from_cursor(s: MigrationState, start_id: u32, limit: u32)
    requires
        limit > 0,
    ensures
        ({
            let all = present(s.subscriptions, start_id as int, s.next_id as int);
            let cursor = export_cursor(all, start_id, s.next_id, limit);
            all == window(all, 0, limit as int) + present(
                s.subscriptions,
                cursor as int,
                s.next_id as int,
            )
        }),
{
    let all = present(s.subscriptions, start_id as int, s.next_id as int);
    if all.len() >= limit {
        lemma_present_suffix(
            s.subscriptions,
            start_id as int,
            s.next_id as int,
            limit - 1,
        );
        assert(all =~= window(all, 0, limit as int) + all.skip(limit as int));
    } else {
        assert(all =~= window(all, 0, limit as int) + Seq::<u32>::empty());
    }
}

} // verus!
