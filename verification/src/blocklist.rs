//! Registry of blocked subscribers.
use crate::admin::{admin_refusal, require_admin_auth};
use crate::events::{BlocklistAddedEvent, BlocklistRemovedEvent, Effect, Event};
use crate::tables::{copy_text, lemma_viewed_insert, lemma_viewed_remove};
use crate::types::{text_view, Address, BlocklistEntry, Call, Error};
use crate::vault::{SubscriptionVault, VaultState};
use vstd::prelude::*;

verus! {

/// Whether a merchant has a subscription of a subscriber with an id below `end`.
pub open spec fn serves_below(
    s: VaultState,
    merchant: Address,
    subscriber: Address,
    end: int,
) -> bool {
    exists|id: u32|
        id < end && #[trigger] s.subscriptions.contains_key(id) && s.subscriptions[id].subscriber
            == subscriber && s.subscriptions[id].merchant == merchant
}

/// The admin may block any subscriber, a merchant those that have subscribed to it.
pub open spec fn may_block(s: VaultState, authorizer: Address, subscriber: Address) -> bool {
    s.config.admin == Some(authorizer) || serves_below(
        s,
        authorizer,
        subscriber,
        s.next_id as int,
    )
}

/// The state once a subscriber is on the blocklist.
pub open spec fn blocked(
    s: VaultState,
    authorizer: Address,
    subscriber: Address,
    reason: Option<Seq<u8>>,
    now: u64,
) -> VaultState {
    VaultState {
        blocklist: s.blocklist.insert(
            subscriber,
            BlocklistEntry { subscriber, added_by: authorizer, added_at: now, reason },
        ),
        outbox: s.outbox.push(
            Effect::Publish(
                Event::BlocklistAdded(
                    BlocklistAddedEvent {
                        subscriber,
                        added_by: authorizer,
                        timestamp: now,
                        reason,
                    },
                ),
            ),
        ),
        ..s
    }
}

/// A copy of an optional text.
fn copy_reason(reason: &Option<Vec<u8>>) -> (copy: Option<Vec<u8>>)
    ensures
        text_view(copy) == text_view(*reason),
{
    match reason {
        Some(text) => Some(copy_text(text)),
        None => None,
    }
}

/// Whether a merchant has a subscription of a subscriber.
fn serves(
    vault: &SubscriptionVault,
    merchant: &Address,
    subscriber: &Address,
) -> (found: bool)
    ensures
        found == serves_below(vault@, *merchant, *subscriber, vault@.next_id as int),
{
    let mut id: u32 = 0;
    while id < vault.next_id
        invariant
            id <= vault.next_id,
            !serves_below(vault@, *merchant, *subscriber, id as int),
        decreases vault.next_id - id,
    {
        if let Some(sub) = vault.subscriptions.get(id) {
            if sub.subscriber == *subscriber && sub.merchant == *merchant {
                assert(vault@.subscriptions.contains_key(id));
                return true;
            }
        }
        id = id + 1;
    }
    false
}

/// Puts a subscriber on the blocklist.
pub fn do_add_to_blocklist(
    vault: &mut SubscriptionVault,
    call: &Call,
    authorizer: Address,
    subscriber: Address,
    reason: Option<Vec<u8>>,
) -> (result: Result<(), Error>)
    requires
        call.signed_by(authorizer),
    ensures
        if may_block(old(vault)@, authorizer, subscriber) {
            result == Ok::<(), Error>(()) && final(vault)@ == blocked(
                old(vault)@,
                authorizer,
                subscriber,
                text_view(reason),
                call.now,
            )
        } else {
            result == Err::<(), Error>(Error::Forbidden) && final(vault)@ == old(vault)@
        },
{
    let is_admin = match vault.config.admin {
        Some(admin) => admin == authorizer,
        None => false,
    };
    if !is_admin && !serves(vault, &authorizer, &subscriber) {
        return Err(Error::Forbidden);
    }
    let published = copy_reason(&reason);
    let entry = BlocklistEntry {
        subscriber,
        added_by: authorizer,
        added_at: call.now,
        reason,
    };
    proof {
        lemma_viewed_insert(vault.blocklist@, subscriber, entry);
    }
    vault.blocklist.set(subscriber, entry);
    vault.outbox.publish(
        Event::BlocklistAdded(
            BlocklistAddedEvent {
                subscriber,
                added_by: authorizer,
                timestamp: call.now,
                reason: published,
            },
        ),
    );
    Ok(())
}

/// Why a subscriber is not taken off the blocklist.
pub open spec fn unblock_refusal(s: VaultState, admin: Address, subscriber: Address) -> Option<
    Error,
> {
    match admin_refusal(s, admin) {
        Some(e) => Some(e),
        None => if !s.blocklist.contains_key(subscriber) {
            Some(Error::NotFound)
        } else {
            None
        },
    }
}

/// Takes a subscriber off the blocklist. Admin only.
pub fn do_remove_from_blocklist(
    vault: &mut SubscriptionVault,
    call: &Call,
    admin: Address,
    subscriber: Address,
) -> (result: Result<(), Error>)
    requires
        call.signed_by(admin),
    ensures
        match unblock_refusal(old(vault)@, admin, subscriber) {
            Some(e) => result == Err::<(), Error>(e) && final(vault)@ == old(vault)@,
            None => result == Ok::<(), Error>(()) && final(vault)@ == (VaultState {
                blocklist: old(vault)@.blocklist.remove(subscriber),
                outbox: old(vault)@.outbox.push(
                    Effect::Publish(
                        Event::BlocklistRemoved(
                            BlocklistRemovedEvent {
                                subscriber,
                                removed_by: admin,
                                timestamp: call.now,
                            },
                        ),
                    ),
                ),
                ..old(vault)@
            }),
        },
{
    match require_admin_auth(vault, call, &admin) {
        Err(e) => return Err(e),
        Ok(()) => {},
    }
    if !is_blocklisted(vault, &subscriber) {
        return Err(Error::NotFound);
    }
    proof {
        lemma_viewed_remove(vault.blocklist@, subscriber);
    }
    vault.blocklist.remove(subscriber);
    vault.outbox.publish(
        Event::BlocklistRemoved(
            BlocklistRemovedEvent { subscriber, removed_by: admin, timestamp: call.now },
        ),
    );
    Ok(())
}

/// Why and by whom a subscriber was blocked.
pub fn get_blocklist_entry(
    vault: &SubscriptionVault,
    subscriber: Address,
) -> (result: Result<BlocklistEntry<Vec<u8>>, Error>)
    ensures
        match result {
            Ok(entry) => vault@.blocklist.get(subscriber) == Some(entry@),
            Err(e) => e == Error::NotFound && !vault@.blocklist.contains_key(subscriber),
        },
{
    match vault.blocklist.get(subscriber) {
        Some(entry) => Ok(
            BlocklistEntry {
                subscriber: entry.subscriber,
                added_by: entry.added_by,
                added_at: entry.added_at,
                reason: copy_reason(&entry.reason),
            },
        ),
        None => Err(Error::NotFound),
    }
}

/// Whether a subscriber is on the blocklist.
pub fn is_blocklisted(vault: &SubscriptionVault, subscriber: &Address) -> (listed: bool)
    ensures
        listed == vault@.blocklist.contains_key(*subscriber),
{
    vault.blocklist.get(*subscriber).is_some()
}

} // verus!
