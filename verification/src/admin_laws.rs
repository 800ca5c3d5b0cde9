//! What the administrator may do, and what settings, notes and lists come of it.
use crate::admin::{
    accepting, admin_refusal, initialized, lemma_position_is_listed, position_of,
    recovery_refusal, reported,
};
use crate::blocklist::{may_block, unblock_refusal};
use crate::contract::{plain_usage_reference, refuses, yields};
use crate::events::{
    AdminRotatedEvent, BlocklistAddedEvent, BlocklistRemovedEvent, ContractSnapshotEvent, Effect,
    EmergencyStopDisabledEvent, EmergencyStopEnabledEvent, Event, MetadataDeletedEvent,
    MetadataSetEvent, MigrationExportEvent, RecoveryEvent,
};
use crate::lifecycle_laws::is_registered;
use crate::metadata::{
    delete_refusal, entry_at, is_entry, keys_of, lemma_entry_at, set_refusal, value_of,
};
use crate::migration::{
    batch_refusal, export_refusal, exports_refusal, MigrationState, snapshot_refusal,
};
use crate::operation::{after, is_refused, Moment, Operation};
use crate::price_laws::{accepting_keeps_the_other_entries, is_registry};
use crate::reentrancy::unlocked;
use crate::safe_math::{amount_of, lowered_balance, quotient_toward_zero, raised_balance};
use crate::state_machine::{moves, transition_allowed};
use crate::statements::Statements;
use crate::types::{
    AcceptedToken, Address, BlocklistEntry, Bucket, Error, MetadataEntry, OracleConfig,
    RecoveryReason, SubscriptionStatus,
};
use crate::vault::{fresh, Config, VaultState};
use vstd::prelude::*;

verus! {

// ── Who is the administrator ─────────────────────────────────────────────────

/// The address is the administrator of a vault that was set up.
pub open spec fn administers(s: VaultState, who: Address) -> bool {
    s.config.admin is Some && s.config.admin->Some_0 == who
}

/// Before the vault is set up everyone is refused with `NotInitialized`, and then everyone
/// but the administrator with `Unauthorized`.
pub proof fn only_the_administrator_passes(s: VaultState, who: Address)
    ensures
        admin_refusal(s, who) == if s.config.admin is None {
            Some(Error::NotInitialized)
        } else if administers(s, who) {
            None
        } else {
            Some(Error::Unauthorized)
        },
{
}

/// A setting is reported as it is, or as not initialized where it was never set.
pub proof fn settings_are_reported<T>(setting: Option<T>)
    ensures
        setting is Some ==> initialized(setting) == Ok::<T, Error>(setting->Some_0),
        setting is None ==> initialized(setting) is Err && initialized(setting)->Err_0
            == Error::NotInitialized,
{
}

/// A refused call returns the error and leaves the state; one that succeeds returns the
/// value and leaves the state that it promises.
pub proof fn calls_succeed_or_fail<T>(
    result: Result<T, Error>,
    e: Error,
    value: T,
    before: VaultState,
    promised: VaultState,
    found: VaultState,
)
    ensures
        refuses(result, e, before, found) ==> result is Err && result->Err_0 == e && found
            == before,
        yields(result, value, promised, found) ==> result == Ok::<T, Error>(value) && found
            == promised,
{
}

// ── Settings ─────────────────────────────────────────────────────────────────

/// A new vault is not set up, not stopped and priced without an oracle; nobody and nothing
/// is recorded in it.
pub proof fn new_vault_is_empty()
    ensures
        ({
            let s = fresh();
            &&& s.config.token is None
            &&& s.config.admin is None
            &&& s.config.min_topup is None
            &&& s.config.grace_period is None
            &&& !s.config.emergency_stop
            &&& !s.config.oracle.enabled
            &&& s.config.oracle.oracle is None
            &&& s.next_id == 0
            &&& s.next_plan_id == 0
            &&& s.tokens.len() == 0
            &&& s.by_merchant.len() == 0
            &&& s.by_token.len() == 0
            &&& s.metadata.len() == 0
            &&& s.outbox.len() == 0
            &&& forall|id: u32| !(#[trigger] s.subscriptions.contains_key(id))
            &&& forall|id: u32| !(#[trigger] s.plans.contains_key(id))
            &&& forall|bucket: Bucket| !(#[trigger] s.merchants.balances.contains_key(bucket))
            &&& forall|bucket: Bucket| !(#[trigger] s.credit_limits.contains_key(bucket))
            &&& forall|who: Address| !(#[trigger] s.merchants.paused.contains_key(who))
            &&& forall|who: Address| !(#[trigger] s.blocklist.contains_key(who))
            &&& forall|row: (u32, u32)| !(#[trigger] s.statements.rows.contains_key(row))
            &&& s.statements.keep_recent is None
        }),
{
}

/// A vault is set up once: token, administrator, least top-up and grace period are stored as
/// given and the token is registered with its decimals; the stop and the oracle settings stay.
/// A vault that was set up stays as it is.
pub proof fn setup_is_stored(
    s: VaultState,
    m: Moment,
    token: Address,
    token_decimals: u32,
    admin: Address,
    min_topup: i128,
    grace_period: u64,
)
    ensures
        ({
            let t = after(
                s,
                m,
                Operation::Init { token, token_decimals, admin, min_topup, grace_period },
            );
            if s.config.token is Some || s.config.admin is Some {
                t == s
            } else {
                &&& t.config.token == Some(token)
                &&& t.config.admin == Some(admin)
                &&& t.config.min_topup == Some(min_topup)
                &&& t.config.grace_period == Some(grace_period)
                &&& t.config.emergency_stop == s.config.emergency_stop
                &&& t.config.oracle == s.config.oracle
                &&& t.tokens == accepting(s.tokens, token, token_decimals)
                &&& t == (VaultState { config: t.config, tokens: t.tokens, ..s })
            }
        }),
{
    reveal(is_refused);
}

/// Only the administrator sets the least top-up; it is stored as given and nothing else
/// changes.
pub proof fn least_topup_is_stored(s: VaultState, m: Moment, admin: Address, min_topup: i128)
    ensures
        ({
            let t = after(s, m, Operation::SetMinTopup { admin, min_topup });
            if administers(s, admin) {
                &&& t.config.min_topup == Some(min_topup)
                &&& t == (VaultState {
                    config: Config { min_topup: t.config.min_topup, ..s.config },
                    ..s
                })
            } else {
                t == s
            }
        }),
{
    reveal(is_refused);
}

/// Only the administrator hands the role on; the new one is stored, both are announced and
/// nothing else changes.
pub proof fn rotation_is_stored(
    s: VaultState,
    m: Moment,
    current_admin: Address,
    new_admin: Address,
)
    ensures
        ({
            let t = after(s, m, Operation::RotateAdmin { current_admin, new_admin });
            if administers(s, current_admin) {
                &&& t.config.admin == Some(new_admin)
                &&& t.outbox == s.outbox.push(
                    Effect::Publish(
                        Event::AdminRotated(
                            AdminRotatedEvent {
                                old_admin: current_admin,
                                new_admin,
                                timestamp: m.now,
                            },
                        ),
                    ),
                )
                &&& t == (VaultState {
                    config: Config { admin: t.config.admin, ..s.config },
                    outbox: t.outbox,
                    ..s
                })
            } else {
                t == s
            }
        }),
{
    reveal(is_refused);
}

/// Only the administrator recovers stranded funds, and only a positive amount of them
/// (`InvalidRecoveryAmount`); the recovery is announced and nothing else changes.
pub proof fn recovery_is_announced(
    s: VaultState,
    m: Moment,
    admin: Address,
    recipient: Address,
    amount: i128,
    reason: RecoveryReason,
)
    ensures
        recovery_refusal(s, admin, amount) == if s.config.admin is None {
            Some(Error::NotInitialized)
        } else if !administers(s, admin) {
            Some(Error::Unauthorized)
        } else if amount <= 0 {
            Some(Error::InvalidRecoveryAmount)
        } else {
            None
        },
        ({
            let t = after(
                s,
                m,
                Operation::RecoverStrandedFunds { admin, recipient, amount, reason },
            );
            if administers(s, admin) && amount > 0 {
                &&& t.outbox == s.outbox.push(
                    Effect::Publish(
                        Event::Recovery(
                            RecoveryEvent { admin, recipient, amount, reason, timestamp: m.now },
                        ),
                    ),
                )
                &&& t == (VaultState { outbox: t.outbox, ..s })
            } else {
                t == s
            }
        }),
{
    reveal(is_refused);
}

/// Only the administrator stops the vault, which is not stopped, and starts it again once it
/// is; either is announced and nothing else changes.
pub proof fn stop_is_set_and_lifted(s: VaultState, m: Moment, admin: Address)
    ensures
        ({
            let t = after(s, m, Operation::EnableEmergencyStop { admin });
            if administers(s, admin) && !s.config.emergency_stop {
                &&& t.config.emergency_stop
                &&& t.outbox == s.outbox.push(
                    Effect::Publish(
                        Event::EmergencyStopEnabled(
                            EmergencyStopEnabledEvent { admin, timestamp: m.now },
                        ),
                    ),
                )
                &&& t == (VaultState {
                    config: Config { emergency_stop: t.config.emergency_stop, ..s.config },
                    outbox: t.outbox,
                    ..s
                })
            } else {
                t == s
            }
        }),
        ({
            let t = after(s, m, Operation::DisableEmergencyStop { admin });
            if administers(s, admin) && s.config.emergency_stop {
                &&& !t.config.emergency_stop
                &&& t.outbox == s.outbox.push(
                    Effect::Publish(
                        Event::EmergencyStopDisabled(
                            EmergencyStopDisabledEvent { admin, timestamp: m.now },
                        ),
                    ),
                )
                &&& t == (VaultState {
                    config: Config { emergency_stop: t.config.emergency_stop, ..s.config },
                    outbox: t.outbox,
                    ..s
                })
            } else {
                t == s
            }
        }),
{
    reveal(is_refused);
}

/// A stopped vault charges no interval and no usage.
pub proof fn stopped_vault_charges_nothing(s: VaultState, m: Moment, op: Operation)
    requires
        s.config.emergency_stop,
        op is ChargeInterval || op is ChargeUsage || op is CreateSubscription || op
            is DepositFunds,
    ensures
        after(s, m, op) == s,
{
    reveal(is_refused);
}

/// Only the administrator registers a token, in place of its earlier entry or behind the
/// others, and removes one, which takes out its entry and no other.
pub proof fn registry_follows_the_administrator(
    s: VaultState,
    m: Moment,
    admin: Address,
    token: Address,
    decimals: u32,
)
    requires
        is_registry(s.tokens),
    ensures
        ({
            let t = after(s, m, Operation::AddAcceptedToken { admin, token, decimals });
            if administers(s, admin) {
                &&& t.tokens.len() == s.tokens.len() + if is_registered(s, token) {
                    0int
                } else {
                    1
                }
                &&& !is_registered(s, token) ==> t.tokens.last() == (AcceptedToken {
                    token,
                    decimals,
                })
                &&& forall|i: int|
                    0 <= i < s.tokens.len() ==> #[trigger] t.tokens[i] == if s.tokens[i].token
                        == token {
                        (AcceptedToken { token, decimals })
                    } else {
                        s.tokens[i]
                    }
                &&& t == (VaultState { tokens: t.tokens, ..s })
            } else {
                t == s
            }
        }),
        ({
            let t = after(s, m, Operation::RemoveAcceptedToken { admin, token });
            if administers(s, admin) && s.config.token != Some(token) && is_registered(s, token) {
                &&& exists|at: int|
                    0 <= at < s.tokens.len() && (#[trigger] s.tokens[at]).token == token
                        && t.tokens == s.tokens.remove(at)
                &&& t == (VaultState { tokens: t.tokens, ..s })
            } else {
                t == s
            }
        }),
{
    reveal(is_refused);
    lemma_position_is_listed(s.tokens, token);
    accepting_keeps_the_other_entries(s.tokens, token, decimals);
    if let Some(at) = position_of(s.tokens, token) {
        assert(s.tokens[at].token == token);
    }
}

/// Only the administrator sets how many recent statements are kept and how charges are
/// priced; either is stored as given and nothing else changes.
pub proof fn retention_and_pricing_are_stored(
    s: VaultState,
    m: Moment,
    admin: Address,
    keep_recent: u32,
    enabled: bool,
    oracle: Option<Address>,
    max_age_seconds: u64,
)
    ensures
        ({
            let t = after(s, m, Operation::SetBillingRetention { admin, keep_recent });
            if administers(s, admin) {
                &&& t.statements.keep_recent == Some(keep_recent)
                &&& t == (VaultState {
                    statements: Statements {
                        keep_recent: t.statements.keep_recent,
                        ..s.statements
                    },
                    ..s
                })
            } else {
                t == s
            }
        }),
        ({
            let t = after(
                s,
                m,
                Operation::SetOracleConfig { admin, enabled, oracle, max_age_seconds },
            );
            if administers(s, admin) && (enabled ==> oracle is Some && max_age_seconds != 0) {
                &&& t.config.oracle == (OracleConfig { enabled, oracle, max_age_seconds })
                &&& t == (VaultState {
                    config: Config { oracle: t.config.oracle, ..s.config },
                    ..s
                })
            } else {
                t == s
            }
        }),
{
    reveal(is_refused);
}

// ── Exports ──────────────────────────────────────────────────────────────────

/// Exports are for the administrator: a snapshot of a vault that was set up, the summary of a
/// subscription that exists, and summaries of at most a hundred at a time.
pub proof fn exports_are_checked_in_order(s: VaultState, admin: Address, id: u32, limit: u32)
    ensures
        ({
            let by_role = admin_refusal(s, admin);
            &&& snapshot_refusal(s, admin) == if by_role is Some {
                by_role
            } else if s.config.token is None {
                Some(Error::NotFound)
            } else if s.config.min_topup is None {
                Some(Error::NotInitialized)
            } else {
                None
            }
            &&& export_refusal(s, admin, id) == if by_role is Some {
                by_role
            } else if !s.subscriptions.contains_key(id) {
                Some(Error::NotFound)
            } else {
                None
            }
            &&& exports_refusal(s, admin, limit) == if by_role is Some {
                by_role
            } else if limit > 100 {
                Some(Error::InvalidExportLimit)
            } else {
                None
            }
        }),
{
}

/// A batch of a migration needs an administrator and a limit from one to a hundred.
pub proof fn migration_batches_are_checked_in_order(s: MigrationState, limit: u32)
    ensures
        batch_refusal(s, limit) == if s.admin is None {
            Some(Error::NotInitialized)
        } else if 1 <= limit <= 100 {
            None
        } else {
            Some(Error::InvalidExportLimit)
        },
{
}

/// Exports are announced, with the administrator, the time and for summaries the range and
/// their number, and change nothing else.
pub proof fn exports_are_announced(s: VaultState, m: Moment, admin: Address, id: u32, limit: u32)
    ensures
        ({
            let t = after(s, m, Operation::ExportContractSnapshot { admin });
            if snapshot_refusal(s, admin) is Some {
                t == s
            } else {
                &&& t.outbox == s.outbox.push(
                    Effect::Publish(
                        Event::ContractSnapshot(
                            ContractSnapshotEvent { admin, timestamp: m.now },
                        ),
                    ),
                )
                &&& t == (VaultState { outbox: t.outbox, ..s })
            }
        }),
        ({
            let t = after(
                s,
                m,
                Operation::ExportSubscriptionSummary { admin, subscription_id: id },
            );
            if export_refusal(s, admin, id) is Some {
                t == s
            } else {
                &&& t.outbox == s.outbox.push(
                    Effect::Publish(
                        Event::MigrationExport(
                            MigrationExportEvent {
                                admin,
                                start_id: id,
                                limit: 1,
                                exported: 1,
                                timestamp: m.now,
                            },
                        ),
                    ),
                )
                &&& t == (VaultState { outbox: t.outbox, ..s })
            }
        }),
        ({
            let t = after(
                s,
                m,
                Operation::ExportSubscriptionSummaries { admin, start_id: id, limit },
            );
            if exports_refusal(s, admin, limit) is Some || limit == 0 || id >= s.next_id {
                t == s
            } else {
                &&& t.outbox.len() == s.outbox.len() + 1
                &&& t.outbox.drop_last() == s.outbox
                &&& t.outbox.last() is Publish
                &&& t.outbox.last()->Publish_0 is MigrationExport
                &&& t.outbox.last()->Publish_0->MigrationExport_0.admin == admin
                &&& t.outbox.last()->Publish_0->MigrationExport_0.start_id == id
                &&& t.outbox.last()->Publish_0->MigrationExport_0.limit == limit
                &&& t.outbox.last()->Publish_0->MigrationExport_0.timestamp == m.now
                &&& t == (VaultState { outbox: t.outbox, ..s })
            }
        }),
{
    reveal(is_refused);
}

// ── The blocklist ────────────────────────────────────────────────────────────

/// A subscriber is blocked by the administrator and by the merchants of the subscriber's
/// subscriptions, and by nobody else.
pub proof fn blocking_is_for_those_concerned(
    s: VaultState,
    authorizer: Address,
    subscriber: Address,
)
    ensures
        may_block(s, authorizer, subscriber) <==> administers(s, authorizer) || exists|id: u32|
            id < s.next_id && #[trigger] s.subscriptions.contains_key(id)
                && s.subscriptions[id].merchant == authorizer && s.subscriptions[id].subscriber
                == subscriber,
{
}

/// A block notes whom, by whom, when and why, and is announced so; nothing else changes, and
/// someone who may not block changes nothing.
pub proof fn block_is_noted(
    s: VaultState,
    m: Moment,
    authorizer: Address,
    subscriber: Address,
    note: Option<Seq<u8>>,
)
    ensures
        ({
            let t = after(s, m, Operation::AddToBlocklist { authorizer, subscriber, note });
            if may_block(s, authorizer, subscriber) {
                &&& t.blocklist == s.blocklist.insert(
                    subscriber,
                    BlocklistEntry {
                        subscriber,
                        added_by: authorizer,
                        added_at: m.now,
                        reason: note,
                    },
                )
                &&& t.outbox == s.outbox.push(
                    Effect::Publish(
                        Event::BlocklistAdded(
                            BlocklistAddedEvent {
                                subscriber,
                                added_by: authorizer,
                                timestamp: m.now,
                                reason: note,
                            },
                        ),
                    ),
                )
                &&& t == (VaultState { blocklist: t.blocklist, outbox: t.outbox, ..s })
            } else {
                t == s
            }
        }),
{
    reveal(is_refused);
}

/// Only the administrator lifts a block, of a subscriber who is blocked (`NotFound`); the
/// subscriber is then on the list no more, which is announced, and nothing else changes.
pub proof fn block_is_lifted(s: VaultState, m: Moment, admin: Address, subscriber: Address)
    ensures
        unblock_refusal(s, admin, subscriber) == if s.config.admin is None {
            Some(Error::NotInitialized)
        } else if !administers(s, admin) {
            Some(Error::Unauthorized)
        } else if !s.blocklist.contains_key(subscriber) {
            Some(Error::NotFound)
        } else {
            None
        },
        ({
            let t = after(s, m, Operation::RemoveFromBlocklist { admin, subscriber });
            if administers(s, admin) && s.blocklist.contains_key(subscriber) {
                &&& t.blocklist == s.blocklist.remove(subscriber)
                &&& t.outbox == s.outbox.push(
                    Effect::Publish(
                        Event::BlocklistRemoved(
                            BlocklistRemovedEvent {
                                subscriber,
                                removed_by: admin,
                                timestamp: m.now,
                            },
                        ),
                    ),
                )
                &&& t == (VaultState { blocklist: t.blocklist, outbox: t.outbox, ..s })
            } else {
                t == s
            }
        }),
{
    reveal(is_refused);
}

// ── Notes on subscriptions ───────────────────────────────────────────────────

/// The entry stands at this place and belongs to the subscription and the key.
pub open spec fn stands_at(
    entries: Seq<MetadataEntry<Seq<u8>>>,
    id: u32,
    key: Seq<u8>,
    i: int,
) -> bool {
    0 <= i < entries.len() && entries[i].subscription_id == id && entries[i].key == key
}

/// A value is found where an entry of the subscription and the key stands, and only there.
pub proof fn values_are_found_by_subscription_and_key(
    entries: Seq<MetadataEntry<Seq<u8>>>,
    id: u32,
    key: Seq<u8>,
)
    ensures
        entry_at(entries, id, key) is Some <==> exists|i: int| stands_at(entries, id, key, i),
        value_of(entries, id, key) is Some <==> exists|i: int| stands_at(entries, id, key, i),
        entry_at(entries, id, key) is Some ==> stands_at(
            entries,
            id,
            key,
            entry_at(entries, id, key)->Some_0,
        ) && value_of(entries, id, key) == Some(
            entries[entry_at(entries, id, key)->Some_0].value,
        ),
{
    lemma_entry_at(entries, id, key);
    match entry_at(entries, id, key) {
        Some(i) => {
            assert(stands_at(entries, id, key, i));
        },
        None => {
            assert forall|i: int| !stands_at(entries, id, key, i) by {
                if stands_at(entries, id, key, i) {
                    assert(!is_entry(entries[i], id, key));
                }
            }
        },
    }
}

/// The keys of a subscription are those of its entries, in their order.
pub proof fn keys_are_those_of_the_entries(entries: Seq<MetadataEntry<Seq<u8>>>, id: u32)
    ensures
        keys_of(entries, id) == entries.filter(
            |entry: MetadataEntry<Seq<u8>>| entry.subscription_id == id,
        ).map_values(|entry: MetadataEntry<Seq<u8>>| entry.key),
    decreases entries.len(),
{
    let own = |entry: MetadataEntry<Seq<u8>>| entry.subscription_id == id;
    let key = |entry: MetadataEntry<Seq<u8>>| entry.key;
    reveal(Seq::filter);
    if entries.len() > 0 {
        keys_are_those_of_the_entries(entries.drop_last(), id);
        let front = entries.drop_last().filter(own);
        if own(entries.last()) {
            assert(front.push(entries.last()).map_values(key) =~= front.map_values(key).push(
                entries.last().key,
            ));
        }
    } else {
        assert(keys_of(entries, id) =~= entries.filter(own).map_values(key));
    }
}

/// A note is refused in this order: on an unknown subscription with `NotFound`, by anyone but
/// its subscriber and its merchant with `Forbidden`, on a cancelled one with `NotActive`,
/// under a key that is empty or longer than 32 bytes with `MetadataKeyInvalid`, of more than
/// 256 bytes with `MetadataValueTooLong`, and under a new key where ten are in use with
/// `MetadataKeyLimitReached`.
pub proof fn notes_are_checked_in_order(
    s: VaultState,
    id: u32,
    authorizer: Address,
    key: Seq<u8>,
    value: Seq<u8>,
)
    ensures
        ({
            let refusal = set_refusal(s, id, authorizer, key, value);
            let sub = s.subscriptions[id];
            if !s.subscriptions.contains_key(id) {
                refusal == Some(Error::NotFound)
            } else if authorizer != sub.subscriber && authorizer != sub.merchant {
                refusal == Some(Error::Forbidden)
            } else if sub.status == SubscriptionStatus::Cancelled {
                refusal == Some(Error::NotActive)
            } else if !(1 <= key.len() <= 32) {
                refusal == Some(Error::MetadataKeyInvalid)
            } else if value.len() > 256 {
                refusal == Some(Error::MetadataValueTooLong)
            } else if (forall|i: int| !stands_at(s.metadata, id, key, i)) && keys_of(
                s.metadata,
                id,
            ).len() >= 10 {
                refusal == Some(Error::MetadataKeyLimitReached)
            } else {
                refusal is None
            }
        }),
{
    values_are_found_by_subscription_and_key(s.metadata, id, key);
}

/// A note is set in place of the one under its key, or behind the others, and announced;
/// nothing else changes.
pub proof fn note_is_set(
    s: VaultState,
    m: Moment,
    id: u32,
    authorizer: Address,
    key: Seq<u8>,
    value: Seq<u8>,
)
    ensures
        ({
            let t = after(
                s,
                m,
                Operation::SetMetadata { subscription_id: id, authorizer, key, value },
            );
            let entry = MetadataEntry { subscription_id: id, key, value };
            if set_refusal(s, id, authorizer, key, value) is Some {
                t == s
            } else {
                &&& t.metadata == s.metadata.push(entry) || exists|i: int|
                    #[trigger] stands_at(s.metadata, id, key, i) && t.metadata
                        == s.metadata.update(i, entry)
                &&& (exists|i: int| #[trigger] stands_at(s.metadata, id, key, i))
                    ==> t.metadata.len() == s.metadata.len()
                &&& t.outbox == s.outbox.push(
                    Effect::Publish(
                        Event::MetadataSet(
                            MetadataSetEvent { subscription_id: id, key, authorizer },
                        ),
                    ),
                )
                &&& t == (VaultState { metadata: t.metadata, outbox: t.outbox, ..s })
            }
        }),
{
    reveal(is_refused);
    values_are_found_by_subscription_and_key(s.metadata, id, key);
}

/// A note is deleted, of a subscription that exists, by its subscriber or its merchant
/// (`Forbidden`) and where there is one under the key (`NotFound`), in any status. It is taken
/// out and announced; nothing else changes.
pub proof fn note_is_deleted(
    s: VaultState,
    m: Moment,
    id: u32,
    authorizer: Address,
    key: Seq<u8>,
)
    ensures
        delete_refusal(s, id, authorizer, key) == if !s.subscriptions.contains_key(id) {
            Some(Error::NotFound)
        } else if authorizer != s.subscriptions[id].subscriber && authorizer
            != s.subscriptions[id].merchant {
            Some(Error::Forbidden)
        } else if forall|i: int| !stands_at(s.metadata, id, key, i) {
            Some(Error::NotFound)
        } else {
            None
        },
        ({
            let t = after(
                s,
                m,
                Operation::DeleteMetadata { subscription_id: id, authorizer, key },
            );
            if delete_refusal(s, id, authorizer, key) is Some {
                t == s
            } else {
                &&& exists|i: int| #[trigger]
                    stands_at(s.metadata, id, key, i) && t.metadata == s.metadata.remove(i)
                &&& t.outbox == s.outbox.push(
                    Effect::Publish(
                        Event::MetadataDeleted(
                            MetadataDeletedEvent { subscription_id: id, key, authorizer },
                        ),
                    ),
                )
                &&& t == (VaultState { metadata: t.metadata, outbox: t.outbox, ..s })
            }
        }),
{
    reveal(is_refused);
    values_are_found_by_subscription_and_key(s.metadata, id, key);
}

// ── Statuses, numbers and codes ──────────────────────────────────────────────

/// A subscription may keep its status in every change. A cancelled one never leaves it; any
/// other may be cancelled or made active; an active one may be paused; one that is active or
/// in grace may become underfunded; and an active one may fall into grace.
pub proof fn statuses_change_along_the_graph(from: SubscriptionStatus, to: SubscriptionStatus)
    ensures
        transition_allowed(from, to) <==> {
            ||| from == to
            ||| from != SubscriptionStatus::Cancelled && to == SubscriptionStatus::Cancelled
            ||| from != SubscriptionStatus::Cancelled && to == SubscriptionStatus::Active
            ||| from == SubscriptionStatus::Active && to == SubscriptionStatus::Paused
            ||| from == SubscriptionStatus::Active && to
                == SubscriptionStatus::InsufficientBalance
            ||| from == SubscriptionStatus::GracePeriod && to
                == SubscriptionStatus::InsufficientBalance
            ||| from == SubscriptionStatus::Active && to == SubscriptionStatus::GracePeriod
        },
{
}

/// The moves that a status has open are the changes to another status.
pub proof fn moves_lead_to_another_status(from: SubscriptionStatus, to: SubscriptionStatus)
    ensures
        moves(from, to) <==> from != to && transition_allowed(from, to),
{
}

/// A number that the machine holds is its own amount; a larger one overflows and a smaller
/// one underflows.
pub proof fn amounts_are_exact_or_refused(exact: int)
    ensures
        i128::MIN <= exact <= i128::MAX ==> amount_of(exact) is Ok && amount_of(exact)->Ok_0
            == exact,
        exact > i128::MAX ==> amount_of(exact) == Err::<i128, Error>(Error::Overflow),
        exact < i128::MIN ==> amount_of(exact) == Err::<i128, Error>(Error::Underflow),
{
}

/// A balance is raised and lowered by the exact amount. A negative amount is refused with
/// `InvalidAmount`, more than the balance with `Underflow`, and what the machine cannot hold
/// with `Overflow`.
pub proof fn balances_move_by_the_exact_amount(balance: i128, amount: i128)
    ensures
        ({
            let raised = raised_balance(balance, amount);
            if amount < 0 {
                raised == Err::<i128, Error>(Error::InvalidAmount)
            } else if balance + amount > i128::MAX {
                raised == Err::<i128, Error>(Error::Overflow)
            } else {
                raised is Ok && raised->Ok_0 == balance + amount
            }
        }),
        ({
            let lowered = lowered_balance(balance, amount);
            if amount < 0 {
                lowered == Err::<i128, Error>(Error::InvalidAmount)
            } else if amount > balance {
                lowered == Err::<i128, Error>(Error::Underflow)
            } else {
                lowered is Ok && lowered->Ok_0 == balance - amount
            }
        }),
{
}

/// A quotient toward zero leaves a remainder that is smaller than the divisor and has the
/// sign of the dividend.
pub proof fn quotient_leaves_a_small_remainder(a: int, b: int)
    requires
        b != 0,
    ensures
        ({
            let rest = a - quotient_toward_zero(a, b) * b;
            &&& a >= 0 ==> 0 <= rest && (rest < b || rest < -b)
            &&& a <= 0 ==> rest <= 0 && (-rest < b || -rest < -b)
        }),
{
    let q = quotient_toward_zero(a, b);
    let x = if a < 0 {
        -a
    } else {
        a
    };
    let y = if b < 0 {
        -b
    } else {
        b
    };
    assert(0 <= x - (x / y) * y < y) by (nonlinear_arith)
        requires
            y > 0,
    ;
    assert(q * b == if a < 0 {
        -((x / y) * y)
    } else {
        (x / y) * y
    }) by (nonlinear_arith)
        requires
            x == if a < 0 {
                -a
            } else {
                a
            },
            y == if b < 0 {
                -b
            } else {
                b
            },
            q == if (a < 0) == (b < 0) {
                x / y
            } else {
                -(x / y)
            },
    ;
}

/// A charge of a batch is reported as a success without a code, or as a failure with the
/// code of its error.
pub proof fn batch_reports_the_outcome(outcome: Result<(), Error>)
    ensures
        reported(outcome).success <==> outcome is Ok,
        outcome is Ok ==> reported(outcome).error_code == 0,
        outcome is Err ==> reported(outcome).error_code == (outcome->Err_0).code(),
{
}

/// The codes that callers know the errors by.
pub proof fn errors_have_their_codes()
    ensures
        Error::InvalidStatusTransition.code() == 400,
        Error::Unauthorized.code() == 401,
        Error::BelowMinimumTopup.code() == 402,
        Error::Forbidden.code() == 403,
        Error::NotFound.code() == 404,
        Error::InvalidAmount.code() == 405,
        Error::SubscriptionLimitReached.code() == 429,
        Error::IntervalNotElapsed.code() == 1001,
        Error::NotActive.code() == 1002,
        Error::InsufficientBalance.code() == 1003,
        Error::UsageNotEnabled.code() == 1004,
        Error::InsufficientPrepaidBalance.code() == 1005,
        Error::Replay.code() == 1007,
        Error::InvalidRecoveryAmount.code() == 1008,
        Error::EmergencyStopActive.code() == 1009,
        Error::Underflow.code() == 1010,
        Error::RecoveryNotAllowed.code() == 1011,
        Error::Overflow.code() == 1012,
        Error::NotInitialized.code() == 1013,
        Error::InvalidExportLimit.code() == 1014,
        Error::InvalidInput.code() == 1015,
        Error::Reentrancy.code() == 1016,
        Error::LifetimeCapReached.code() == 1017,
        Error::AlreadyInitialized.code() == 1018,
        Error::OracleNotConfigured.code() == 1019,
        Error::OraclePriceUnavailable.code() == 1020,
        Error::OraclePriceStale.code() == 1021,
        Error::OraclePriceInvalid.code() == 1022,
        Error::MetadataKeyLimitReached.code() == 1023,
        Error::MetadataKeyInvalid.code() == 1024,
        Error::MetadataValueTooLong.code() == 1025,
        Error::MerchantPaused.code() == 1026,
        Error::MaxConcurrentSubscriptionsReached.code() == 1027,
        Error::CreditLimitExceeded.code() == 1028,
        Error::RateLimitExceeded.code() == 1033,
        Error::UsageCapExceeded.code() == 1034,
        Error::BurstLimitExceeded.code() == 1035,
{
}

/// Releasing a lock takes it out of the locks that are held and keeps the others in their
/// order.
pub proof fn release_keeps_the_other_locks(names: Seq<Seq<u8>>, name: Seq<u8>)
    ensures
        unlocked(names, name) == names.filter(|held: Seq<u8>| held != name),
    decreases names.len(),
{
    reveal(Seq::filter);
    if names.len() > 0 {
        release_keeps_the_other_locks(names.drop_last(), name);
    } else {
        assert(unlocked(names, name) =~= names.filter(|held: Seq<u8>| held != name));
    }
}

/// Usage that is charged without a reference goes under the word "usage".
pub proof fn plain_usage_has_one_reference()
    ensures
        plain_usage_reference().len() == 5,
        forall|i: int|
            0 <= i < 5 ==> #[trigger] plain_usage_reference()[i] as int == "usage"@[i] as int,
{
    reveal_strlit("usage");
}

} // verus!
