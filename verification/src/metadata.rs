//! Key-value metadata on subscriptions.
//!
//! Metadata serves reference and reporting. It never touches balances, status or charges.
use crate::events::{Effect, Event, MetadataDeletedEvent, MetadataSetEvent};
use crate::queries::get_subscription;
use crate::tables::{copy_text, same_text, viewed_items};
use crate::types::{Address, Call, Error, MetadataEntry, SubscriptionStatus};
use crate::vault::{SubscriptionVault, VaultState};
use vstd::prelude::*;

verus! {

/// Most keys that one subscription can have.
pub const MAX_METADATA_KEYS: usize = 10;

/// Longest metadata key, in bytes.
pub const MAX_METADATA_KEY_LENGTH: usize = 32;

/// Longest metadata value, in bytes.
pub const MAX_METADATA_VALUE_LENGTH: usize = 256;

/// Whether an entry is the one of a subscription's key.
pub open spec fn is_entry(
    entry: MetadataEntry<Seq<u8>>,
    subscription_id: u32,
    key: Seq<u8>,
) -> bool {
    entry.subscription_id == subscription_id && entry.key == key
}

/// Where the entry of a subscription's key stands.
pub open spec fn entry_at(
    entries: Seq<MetadataEntry<Seq<u8>>>,
    subscription_id: u32,
    key: Seq<u8>,
) -> Option<int>
    decreases entries.len(),
{
    if entries.len() == 0 {
        None
    } else {
        match entry_at(entries.drop_last(), subscription_id, key) {
            Some(i) => Some(i),
            None => if is_entry(entries.last(), subscription_id, key) {
                Some(entries.len() - 1)
            } else {
                None
            },
        }
    }
}

/// The value of a subscription's key.
pub open spec fn value_of(
    entries: Seq<MetadataEntry<Seq<u8>>>,
    subscription_id: u32,
    key: Seq<u8>,
) -> Option<Seq<u8>> {
    match entry_at(entries, subscription_id, key) {
        Some(i) => Some(entries[i].value),
        None => None,
    }
}

/// The keys of a subscription, in the order in which they were added.
pub open spec fn keys_of(
    entries: Seq<MetadataEntry<Seq<u8>>>,
    subscription_id: u32,
) -> Seq<Seq<u8>>
    decreases entries.len(),
{
    if entries.len() == 0 {
        Seq::empty()
    } else {
        let front = keys_of(entries.drop_last(), subscription_id);
        if entries.last().subscription_id == subscription_id {
            front.push(entries.last().key)
        } else {
            front
        }
    }
}

/// The entries with a key set: a known key keeps its place, a new one comes last.
pub open spec fn with_entry(
    entries: Seq<MetadataEntry<Seq<u8>>>,
    entry: MetadataEntry<Seq<u8>>,
) -> Seq<MetadataEntry<Seq<u8>>> {
    match entry_at(entries, entry.subscription_id, entry.key) {
        Some(i) => entries.update(i, entry),
        None => entries.push(entry),
    }
}

/// The entries without a key.
pub open spec fn without_entry(
    entries: Seq<MetadataEntry<Seq<u8>>>,
    subscription_id: u32,
    key: Seq<u8>,
) -> Seq<MetadataEntry<Seq<u8>>> {
    match entry_at(entries, subscription_id, key) {
        Some(i) => entries.remove(i),
        None => entries,
    }
}

/// Why a key is not set.
pub open spec fn set_refusal(
    s: VaultState,
    subscription_id: u32,
    authorizer: Address,
    key: Seq<u8>,
    value: Seq<u8>,
) -> Option<Error> {
    match s.subscriptions.get(subscription_id) {
        None => Some(Error::NotFound),
        Some(sub) => if authorizer != sub.subscriber && authorizer != sub.merchant {
            Some(Error::Forbidden)
        } else if sub.status is Cancelled {
            Some(Error::NotActive)
        } else if key.len() == 0 || key.len() > MAX_METADATA_KEY_LENGTH {
            Some(Error::MetadataKeyInvalid)
        } else if value.len() > MAX_METADATA_VALUE_LENGTH {
            Some(Error::MetadataValueTooLong)
        } else if entry_at(s.metadata, subscription_id, key) is None && keys_of(
            s.metadata,
            subscription_id,
        ).len() >= MAX_METADATA_KEYS {
            Some(Error::MetadataKeyLimitReached)
        } else {
            None
        },
    }
}

/// Why a key is not deleted.
pub open spec fn delete_refusal(
    s: VaultState,
    subscription_id: u32,
    authorizer: Address,
    key: Seq<u8>,
) -> Option<Error> {
    match s.subscriptions.get(subscription_id) {
        None => Some(Error::NotFound),
        Some(sub) => if authorizer != sub.subscriber && authorizer != sub.merchant {
            Some(Error::Forbidden)
        } else if entry_at(s.metadata, subscription_id, key) is None {
            Some(Error::NotFound)
        } else {
            None
        },
    }
}

proof fn lemma_entry_position_holds(
    entries: Seq<MetadataEntry<Seq<u8>>>,
    count: int,
    subscription_id: u32,
    key: Seq<u8>,
)
    requires
        0 <= count <= entries.len(),
        entry_at(entries.take(count), subscription_id, key) is Some,
    ensures
        entry_at(entries, subscription_id, key) == entry_at(
            entries.take(count),
            subscription_id,
            key,
        ),
    decreases entries.len(),
{
    if count < entries.len() {
        assert(entries.drop_last().take(count) =~= entries.take(count));
        lemma_entry_position_holds(entries.drop_last(), count, subscription_id, key);
    } else {
        assert(entries.take(count) =~= entries);
    }
}

/// Where the entry of a subscription's key stands.
fn find_entry(
    entries: &Vec<MetadataEntry<Vec<u8>>>,
    subscription_id: u32,
    key: &Vec<u8>,
) -> (position: Option<usize>)
    ensures
        match position {
            Some(i) => i < entries@.len() && entry_at(
                viewed_items(entries@),
                subscription_id,
                key@,
            ) == Some(i as int),
            None => entry_at(viewed_items(entries@), subscription_id, key@) is None,
        },
{
    let ghost all = viewed_items(entries@);
    let mut i: usize = 0;
    assert(all.take(0) =~= Seq::<MetadataEntry<Seq<u8>>>::empty());
    while i < entries.len()
        invariant
            i <= entries@.len(),
            all == viewed_items(entries@),
            entry_at(all.take(i as int), subscription_id, key@) is None,
        decreases entries@.len() - i,
    {
        assert(all.take(i + 1).drop_last() =~= all.take(i as int));
        if entries[i].subscription_id == subscription_id && same_text(&entries[i].key, key) {
            proof {
                lemma_entry_position_holds(all, i + 1, subscription_id, key@);
            }
            return Some(i);
        }
        i = i + 1;
    }
    assert(all.take(i as int) =~= all);
    None
}

/// Copies of a subscription's keys.
fn copy_keys(
    entries: &Vec<MetadataEntry<Vec<u8>>>,
    subscription_id: u32,
) -> (keys: Vec<Vec<u8>>)
    ensures
        viewed_items(keys@) == keys_of(viewed_items(entries@), subscription_id),
{
    let ghost all = viewed_items(entries@);
    let mut keys: Vec<Vec<u8>> = Vec::new();
    let mut i: usize = 0;
    assert(all.take(0) =~= Seq::<MetadataEntry<Seq<u8>>>::empty());
    assert(viewed_items(keys@) =~= Seq::<Seq<u8>>::empty());
    while i < entries.len()
        invariant
            i <= entries@.len(),
            all == viewed_items(entries@),
            viewed_items(keys@) == keys_of(all.take(i as int), subscription_id),
        decreases entries@.len() - i,
    {
        assert(all.take(i + 1).drop_last() =~= all.take(i as int));
        if entries[i].subscription_id == subscription_id {
            let ghost before = keys@;
            let key = copy_text(&entries[i].key);
            keys.push(key);
            assert(viewed_items(keys@) =~= viewed_items(before).push(key@));
        }
        i = i + 1;
    }
    assert(all.take(i as int) =~= all);
    keys
}

/// Set or update a metadata key-value pair on a subscription. Subscriber or merchant only.
pub fn do_set_metadata(
    vault: &mut SubscriptionVault,
    call: &Call,
    subscription_id: u32,
    authorizer: &Address,
    key: Vec<u8>,
    value: Vec<u8>,
) -> (result: Result<(), Error>)
    requires
        call.signed_by(*authorizer),
    ensures
        match set_refusal(old(vault)@, subscription_id, *authorizer, key@, value@) {
            Some(e) => result == Err::<(), Error>(e) && final(vault)@ == old(vault)@,
            None => result == Ok::<(), Error>(()) && final(vault)@ == (VaultState {
                metadata: with_entry(
                    old(vault)@.metadata,
                    MetadataEntry { subscription_id, key: key@, value: value@ },
                ),
                outbox: old(vault)@.outbox.push(
                    Effect::Publish(
                        Event::MetadataSet(
                            MetadataSetEvent {
                                subscription_id,
                                key: key@,
                                authorizer: *authorizer,
                            },
                        ),
                    ),
                ),
                ..old(vault)@
            }),
        },
{
    let sub = match get_subscription(vault, subscription_id) {
        Ok(sub) => sub,
        Err(e) => return Err(e),
    };
    if *authorizer != sub.subscriber && *authorizer != sub.merchant {
        return Err(Error::Forbidden);
    }
    if sub.status == SubscriptionStatus::Cancelled {
        return Err(Error::NotActive);
    }
    if key.len() == 0 || key.len() > MAX_METADATA_KEY_LENGTH {
        return Err(Error::MetadataKeyInvalid);
    }
    if value.len() > MAX_METADATA_VALUE_LENGTH {
        return Err(Error::MetadataValueTooLong);
    }
    let position = find_entry(&vault.metadata, subscription_id, &key);
    if position.is_none() {
        let keys = copy_keys(&vault.metadata, subscription_id);
        assert(keys@.len() == viewed_items(keys@).len());
        if keys.len() >= MAX_METADATA_KEYS {
            return Err(Error::MetadataKeyLimitReached);
        }
    }
    let published = copy_text(&key);
    let entry = MetadataEntry { subscription_id, key, value };
    let ghost before = vault.metadata@;
    match position {
        Some(i) => {
            vault.metadata.set(i, entry);
            assert(viewed_items(vault.metadata@) =~= viewed_items(before).update(
                i as int,
                entry@,
            ));
        },
        None => {
            vault.metadata.push(entry);
            assert(viewed_items(vault.metadata@) =~= viewed_items(before).push(entry@));
        },
    }
    vault.outbox.publish(
        Event::MetadataSet(
            MetadataSetEvent { subscription_id, key: published, authorizer: *authorizer },
        ),
    );
    Ok(())
}

/// Delete a metadata key from a subscription. Subscriber or merchant only; a cancelled
/// subscription can still be cleaned up.
pub fn do_delete_metadata(
    vault: &mut SubscriptionVault,
    call: &Call,
    subscription_id: u32,
    authorizer: &Address,
    key: Vec<u8>,
) -> (result: Result<(), Error>)
    requires
        call.signed_by(*authorizer),
    ensures
        match delete_refusal(old(vault)@, subscription_id, *authorizer, key@) {
            Some(e) => result == Err::<(), Error>(e) && final(vault)@ == old(vault)@,
            None => result == Ok::<(), Error>(()) && final(vault)@ == (VaultState {
                metadata: without_entry(old(vault)@.metadata, subscription_id, key@),
                outbox: old(vault)@.outbox.push(
                    Effect::Publish(
                        Event::MetadataDeleted(
                            MetadataDeletedEvent {
                                subscription_id,
                                key: key@,
                                authorizer: *authorizer,
                            },
                        ),
                    ),
                ),
                ..old(vault)@
            }),
        },
{
    let sub = match get_subscription(vault, subscription_id) {
        Ok(sub) => sub,
        Err(e) => return Err(e),
    };
    if *authorizer != sub.subscriber && *authorizer != sub.merchant {
        return Err(Error::Forbidden);
    }
    let i: usize = match find_entry(&vault.metadata, subscription_id, &key) {
        Some(i) => i,
        None => return Err(Error::NotFound),
    };
    let ghost before = vault.metadata@;
    vault.metadata.remove(i);
    assert(viewed_items(vault.metadata@) =~= viewed_items(before).remove(i as int));
    vault.outbox.publish(
        Event::MetadataDeleted(
            MetadataDeletedEvent { subscription_id, key, authorizer: *authorizer },
        ),
    );
    Ok(())
}

/// Get a metadata value by key.
pub fn do_get_metadata(
    vault: &SubscriptionVault,
    subscription_id: u32,
    key: Vec<u8>,
) -> (result: Result<Vec<u8>, Error>)
    ensures
        match result {
            Ok(value) => vault@.subscriptions.contains_key(subscription_id) && value_of(
                vault@.metadata,
                subscription_id,
                key@,
            ) == Some(value@),
            Err(e) => e == Error::NotFound && (!vault@.subscriptions.contains_key(
                subscription_id,
            ) || value_of(vault@.metadata, subscription_id, key@) is None),
        },
{
    match get_subscription(vault, subscription_id) {
        Ok(_) => {},
        Err(e) => return Err(e),
    }
    match find_entry(&vault.metadata, subscription_id, &key) {
        Some(i) => Ok(copy_text(&vault.metadata[i].value)),
        None => Err(Error::NotFound),
    }
}

/// List all metadata keys for a subscription.
pub fn do_list_metadata_keys(
    vault: &SubscriptionVault,
    subscription_id: u32,
) -> (result: Result<Vec<Vec<u8>>, Error>)
    ensures
        match result {
            Ok(keys) => vault@.subscriptions.contains_key(subscription_id) && viewed_items(keys@)
                == keys_of(vault@.metadata, subscription_id),
            Err(e) => e == Error::NotFound && !vault@.subscriptions.contains_key(
                subscription_id,
            ),
        },
{
    match get_subscription(vault, subscription_id) {
        Ok(_) => Ok(copy_keys(&vault.metadata, subscription_id)),
        Err(e) => Err(e),
    }
}

// ── Laws ─────────────────────────────────────────────────────────────────────

/// No subscription has a key twice.
pub open spec fn keys_are_distinct(entries: Seq<MetadataEntry<Seq<u8>>>) -> bool {
    forall|i: int, j: int|
        0 <= i < j < entries.len() ==> !(#[trigger] entries[i].subscription_id
            == #[trigger] entries[j].subscription_id && entries[i].key == entries[j].key)
}

/// No subscription has more keys than allowed.
pub open spec fn keys_are_bounded(entries: Seq<MetadataEntry<Seq<u8>>>) -> bool {
    forall|id: u32| (#[trigger] keys_of(entries, id)).len() <= MAX_METADATA_KEYS
}

pub(crate) proof fn lemma_entry_at(entries: Seq<MetadataEntry<Seq<u8>>>, id: u32, key: Seq<u8>)
    ensures
        match entry_at(entries, id, key) {
            Some(i) => 0 <= i < entries.len() && is_entry(entries[i], id, key),
            None => forall|i: int| 0 <= i < entries.len() ==> !is_entry(entries[i], id, key),
        },
    decreases entries.len(),
{
    if entries.len() > 0 {
        lemma_entry_at(entries.drop_last(), id, key);
        if entry_at(entries, id, key) is None {
            assert forall|i: int| 0 <= i < entries.len() implies !is_entry(entries[i], id, key) by {
                if i < entries.len() - 1 {
                    assert(entries.drop_last()[i] == entries[i]);
                }
            }
        }
    }
}

/// With distinct keys, an entry is found where it stands.
proof fn lemma_only_entry(entries: Seq<MetadataEntry<Seq<u8>>>, id: u32, key: Seq<u8>, i: int)
    requires
        keys_are_distinct(entries),
        0 <= i < entries.len(),
        is_entry(entries[i], id, key),
    ensures
        entry_at(entries, id, key) == Some(i),
{
    lemma_entry_at(entries, id, key);
    match entry_at(entries, id, key) {
        Some(j) => {
            if i < j {
                assert(entries[i].subscription_id == entries[j].subscription_id);
            } else if j < i {
                assert(entries[j].subscription_id == entries[i].subscription_id);
            }
        },
        None => {
            assert(!is_entry(entries[i], id, key));
        },
    }
}

/// A value that was set is the value that is read, and setting it changes the value of no
/// other key and of no other subscription.
pub proof fn set_value_is_read_back(
    entries: Seq<MetadataEntry<Seq<u8>>>,
    entry: MetadataEntry<Seq<u8>>,
    other_id: u32,
    other_key: Seq<u8>,
)
    requires
        keys_are_distinct(entries),
    ensures
        keys_are_distinct(with_entry(entries, entry)),
        value_of(with_entry(entries, entry), entry.subscription_id, entry.key) == Some(
            entry.value,
        ),
        !is_entry(entry, other_id, other_key) ==> value_of(
            with_entry(entries, entry),
            other_id,
            other_key,
        ) == value_of(entries, other_id, other_key),
{
    let after = with_entry(entries, entry);
    lemma_entry_at(entries, entry.subscription_id, entry.key);
    match entry_at(entries, entry.subscription_id, entry.key) {
        Some(at) => {
            assert forall|i: int, j: int| 0 <= i < j < after.len() implies !(
            #[trigger] after[i].subscription_id == #[trigger] after[j].subscription_id
                && after[i].key == after[j].key) by {
                assert(after[i].subscription_id == entries[i].subscription_id);
                assert(after[j].subscription_id == entries[j].subscription_id);
            }
            lemma_only_entry(after, entry.subscription_id, entry.key, at);
        },
        None => {
            assert forall|i: int, j: int| 0 <= i < j < after.len() implies !(
            #[trigger] after[i].subscription_id == #[trigger] after[j].subscription_id
                && after[i].key == after[j].key) by {
                assert(after[i] == entries[i]);
                assert(!is_entry(entries[i], entry.subscription_id, entry.key));
                if j < entries.len() {
                    assert(after[j] == entries[j]);
                    assert(!(entries[i].subscription_id == entries[j].subscription_id
                        && entries[i].key == entries[j].key));
                }
            }
            lemma_only_entry(
                after,
                entry.subscription_id,
                entry.key,
                entries.len() as int,
            );
        },
    }
    if !is_entry(entry, other_id, other_key) {
        lemma_entry_at(entries, other_id, other_key);
        lemma_entry_at(after, other_id, other_key);
        match entry_at(entries, other_id, other_key) {
            Some(i) => {
                assert(after[i] == entries[i]);
                lemma_only_entry(after, other_id, other_key, i);
            },
            None => {
                match entry_at(after, other_id, other_key) {
                    Some(i) => {
                        if i < entries.len() {
                            assert(!is_entry(entries[i], other_id, other_key));
                        }
                    },
                    None => {},
                }
            },
        }
    }
}

/// A key that was deleted is no longer found, and deleting it changes the value of no other
/// key and of no other subscription.
pub proof fn deleted_key_is_gone(
    entries: Seq<MetadataEntry<Seq<u8>>>,
    subscription_id: u32,
    key: Seq<u8>,
    other_id: u32,
    other_key: Seq<u8>,
)
    requires
        keys_are_distinct(entries),
    ensures
        keys_are_distinct(without_entry(entries, subscription_id, key)),
        value_of(without_entry(entries, subscription_id, key), subscription_id, key) is None,
        !(other_id == subscription_id && other_key == key) ==> value_of(
            without_entry(entries, subscription_id, key),
            other_id,
            other_key,
        ) == value_of(entries, other_id, other_key),
{
    let after = without_entry(entries, subscription_id, key);
    lemma_entry_at(entries, subscription_id, key);
    match entry_at(entries, subscription_id, key) {
        None => {},
        Some(at) => {
            assert forall|i: int, j: int| 0 <= i < j < after.len() implies !(
            #[trigger] after[i].subscription_id == #[trigger] after[j].subscription_id
                && after[i].key == after[j].key) by {
                let p = if i < at {
                    i
                } else {
                    i + 1
                };
                let q = if j < at {
                    j
                } else {
                    j + 1
                };
                assert(after[i] == entries[p]);
                assert(after[j] == entries[q]);
                assert(!(entries[p].subscription_id == entries[q].subscription_id
                    && entries[p].key == entries[q].key));
            }
            lemma_entry_at(after, subscription_id, key);
            match entry_at(after, subscription_id, key) {
                Some(i) => {
                    let p = if i < at {
                        i
                    } else {
                        i + 1
                    };
                    assert(after[i] == entries[p]);
                    lemma_only_entry(entries, subscription_id, key, p);
                },
                None => {},
            }
            if !(other_id == subscription_id && other_key == key) {
                lemma_entry_at(entries, other_id, other_key);
                lemma_entry_at(after, other_id, other_key);
                match entry_at(entries, other_id, other_key) {
                    Some(i) => {
                        assert(i != at);
                        let p = if i < at {
                            i
                        } else {
                            i - 1
                        };
                        assert(after[p] == entries[i]);
                        lemma_only_entry(after, other_id, other_key, p);
                    },
                    None => {
                        match entry_at(after, other_id, other_key) {
                            Some(i) => {
                                let p = if i < at {
                                    i
                                } else {
                                    i + 1
                                };
                                assert(after[i] == entries[p]);
                                assert(!is_entry(entries[p], other_id, other_key));
                            },
                            None => {},
                        }
                    },
                }
            }
        },
    }
}

proof fn lemma_updated_keys(
    entries: Seq<MetadataEntry<Seq<u8>>>,
    at: int,
    entry: MetadataEntry<Seq<u8>>,
    id: u32,
)
    requires
        0 <= at < entries.len(),
        is_entry(entries[at], entry.subscription_id, entry.key),
    ensures
        keys_of(entries.update(at, entry), id) == keys_of(entries, id),
    decreases entries.len(),
{
    let after = entries.update(at, entry);
    if at < entries.len() - 1 {
        lemma_updated_keys(entries.drop_last(), at, entry, id);
        assert(after.drop_last() =~= entries.drop_last().update(at, entry));
    } else {
        assert(after.drop_last() =~= entries.drop_last());
    }
}

proof fn lemma_removed_keys(entries: Seq<MetadataEntry<Seq<u8>>>, at: int, id: u32)
    requires
        0 <= at < entries.len(),
    ensures
        keys_of(entries.remove(at), id).len() == keys_of(entries, id).len() - if entries[at]
            .subscription_id == id {
            1int
        } else {
            0int
        },
    decreases entries.len(),
{
    let after = entries.remove(at);
    if at < entries.len() - 1 {
        lemma_removed_keys(entries.drop_last(), at, id);
        assert(after.drop_last() =~= entries.drop_last().remove(at));
        assert(after.last() == entries.last());
    } else {
        assert(after =~= entries.drop_last());
    }
}

/// Setting a key that is not refused keeps every subscription within its number of keys: a
/// known key adds none, a new one adds exactly one.
pub proof fn set_keeps_key_limit(
    s: VaultState,
    subscription_id: u32,
    authorizer: Address,
    key: Seq<u8>,
    value: Seq<u8>,
)
    requires
        keys_are_bounded(s.metadata),
        set_refusal(s, subscription_id, authorizer, key, value) is None,
    ensures
        ({
            let entry = MetadataEntry { subscription_id, key, value };
            let after = with_entry(s.metadata, entry);
            &&& keys_are_bounded(after)
            &&& keys_of(after, subscription_id) == if entry_at(
                s.metadata,
                subscription_id,
                key,
            ) is Some {
                keys_of(s.metadata, subscription_id)
            } else {
                keys_of(s.metadata, subscription_id).push(key)
            }
        }),
{
    let entry = MetadataEntry { subscription_id, key, value };
    let after = with_entry(s.metadata, entry);
    lemma_entry_at(s.metadata, subscription_id, key);
    assert forall|id: u32| (#[trigger] keys_of(after, id)).len() <= MAX_METADATA_KEYS by {
        assert(keys_of(s.metadata, id).len() <= MAX_METADATA_KEYS);
        match entry_at(s.metadata, subscription_id, key) {
            Some(at) => {
                lemma_updated_keys(s.metadata, at, entry, id);
            },
            None => {
                assert(after.drop_last() =~= s.metadata);
            },
        }
    }
    match entry_at(s.metadata, subscription_id, key) {
        Some(at) => {
            lemma_updated_keys(s.metadata, at, entry, subscription_id);
        },
        None => {
            assert(after.drop_last() =~= s.metadata);
        },
    }
}

/// Deleting a key frees its place: the subscription has one key less, and no other
/// subscription loses one.
pub proof fn delete_frees_a_key(
    entries: Seq<MetadataEntry<Seq<u8>>>,
    subscription_id: u32,
    key: Seq<u8>,
    other: u32,
)
    requires
        keys_are_bounded(entries),
        entry_at(entries, subscription_id, key) is Some,
    ensures
        ({
            let after = without_entry(entries, subscription_id, key);
            &&& keys_are_bounded(after)
            &&& keys_of(after, subscription_id).len() == keys_of(entries, subscription_id).len()
                - 1
            &&& other != subscription_id ==> keys_of(after, other).len() == keys_of(
                entries,
                other,
            ).len()
        }),
{
    let after = without_entry(entries, subscription_id, key);
    lemma_entry_at(entries, subscription_id, key);
    let at = entry_at(entries, subscription_id, key)->Some_0;
    assert forall|id: u32| (#[trigger] keys_of(after, id)).len() <= MAX_METADATA_KEYS by {
        assert(keys_of(entries, id).len() <= MAX_METADATA_KEYS);
        lemma_removed_keys(entries, at, id);
    }
    lemma_removed_keys(entries, at, subscription_id);
    lemma_removed_keys(entries, at, other);
}

} // verus!
