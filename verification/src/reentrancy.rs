//! Reentrancy protection for critical operations.
//!
//! A per-function lock detects that an operation is already running, which keeps callbacks
//! from entering the same critical path again.
//!
//! # Limitations
//!
//! A lock only keeps the same function from being entered twice; it does not keep callbacks
//! out of other functions. External calls must come after all internal state updates.
use crate::tables::{copy_text, same_text, viewed_items};
use crate::types::Error;
use vstd::prelude::*;

verus! {

/// The locks that are held, by function name, oldest first.
pub struct Locks {
    pub names: Vec<Vec<u8>>,
}

impl View for Locks {
    type V = Seq<Seq<u8>>;

    open spec fn view(&self) -> Seq<Seq<u8>> {
        viewed_items(self.names@)
    }
}

/// The locks without those of one name.
pub open spec fn unlocked(names: Seq<Seq<u8>>, name: Seq<u8>) -> Seq<Seq<u8>>
    decreases names.len(),
{
    if names.len() == 0 {
        names
    } else if names.last() == name {
        unlocked(names.drop_last(), name)
    } else {
        unlocked(names.drop_last(), name).push(names.last())
    }
}

impl Locks {
    /// No lock is held.
    pub fn new() -> (locks: Locks)
        ensures
            locks@ == Seq::<Seq<u8>>::empty(),
    {
        let locks = Locks { names: Vec::new() };
        assert(locks@ =~= Seq::<Seq<u8>>::empty());
        locks
    }

    /// Whether the lock of a function is held.
    pub fn is_held(&self, name: &Vec<u8>) -> (held: bool)
        ensures
            held == self@.contains(name@),
    {
        let mut i: usize = 0;
        while i < self.names.len()
            invariant
                i <= self.names@.len(),
                forall|n: int| 0 <= n < i ==> #[trigger] self@[n] != name@,
            decreases self.names@.len() - i,
        {
            assert(self@[i as int] == self.names@[i as int]@);
            if same_text(&self.names[i], name) {
                return true;
            }
            i = i + 1;
        }
        false
    }
}

/// A guard that prevents a function from being reentered.
///
/// Taking it sets a lock, releasing it clears the lock. While the lock is held, taking it
/// again fails with `Reentrancy`.
pub struct ReentrancyGuard {
    pub lock_key: Vec<u8>,
}

impl ReentrancyGuard {
    /// Acquire a reentrancy lock for a critical section.
    pub fn lock(locks: &mut Locks, function_name: &Vec<u8>) -> (result: Result<Self, Error>)
        ensures
            match result {
                Ok(guard) => {
                    &&& !old(locks)@.contains(function_name@)
                    &&& final(locks)@ == old(locks)@.push(function_name@)
                    &&& guard.lock_key@ == function_name@
                },
                Err(e) => {
                    &&& e == Error::Reentrancy
                    &&& old(locks)@.contains(function_name@)
                    &&& final(locks)@ == old(locks)@
                },
            },
    {
        if locks.is_held(function_name) {
            return Err(Error::Reentrancy);
        }
        let ghost before = locks.names@;
        let name = copy_text(function_name);
        locks.names.push(name);
        assert(locks@ =~= viewed_items(before).push(function_name@));
        Ok(ReentrancyGuard { lock_key: copy_text(function_name) })
    }

    /// Give the lock back.
    pub fn release(self, locks: &mut Locks)
        ensures
            final(locks)@ == unlocked(old(locks)@, self.lock_key@),
    {
        let ghost all = locks@;
        let ghost mut kept: Seq<Seq<u8>> = Seq::empty();
        let mut i: usize = locks.names.len();
        assert(locks@ =~= all.take(i as int) + kept);
        assert(unlocked(all, self.lock_key@) =~= unlocked(all.take(i as int), self.lock_key@)
            + kept) by {
            assert(all.take(i as int) =~= all);
        }
        while i > 0
            invariant
                i <= all.len(),
                locks@ == all.take(i as int) + kept,
                unlocked(all, self.lock_key@) == unlocked(all.take(i as int), self.lock_key@)
                    + kept,
            decreases i,
        {
            i = i - 1;
            let ghost front = all.take(i as int);
            let ghost before = locks.names@;
            proof {
                assert(all.take(i + 1).drop_last() =~= front);
                assert(locks.names@.len() == locks@.len());
                assert(locks@[i as int] == all[i as int]);
            }
            if same_text(&locks.names[i], &self.lock_key) {
                locks.names.remove(i);
                assert(locks@ =~= viewed_items(before).remove(i as int));
                assert(locks@ =~= front + kept);
            } else {
                proof {
                    let next = seq![all[i as int]] + kept;
                    assert(unlocked(front, self.lock_key@).push(all[i as int]) + kept
                        =~= unlocked(front, self.lock_key@) + next);
                    assert(all.take(i + 1) + kept =~= front + next);
                    kept = next;
                }
            }
        }
        assert(all.take(0) =~= Seq::<Seq<u8>>::empty());
        assert(locks@ =~= unlocked(all, self.lock_key@));
    }
}

proof fn lemma_unlocked_absent(names: Seq<Seq<u8>>, name: Seq<u8>)
    requires
        !names.contains(name),
    ensures
        unlocked(names, name) == names,
    decreases names.len(),
{
    if names.len() > 0 {
        assert forall|i: int| 0 <= i < names.drop_last().len() implies names.drop_last()[i]
            != name by {
            assert(names[i] != name);
        }
        lemma_unlocked_absent(names.drop_last(), name);
        assert(names.last() != name);
        assert(names.drop_last().push(names.last()) =~= names);
    }
}

/// Taking a lock and releasing it leaves the locks as they were.
pub proof fn release_undoes_lock(names: Seq<Seq<u8>>, name: Seq<u8>)
    requires
        !names.contains(name),
    ensures
        unlocked(names.push(name), name) == names,
{
    assert(names.push(name).drop_last() =~= names);
    lemma_unlocked_absent(names, name);
}

/// A lock that was released is free, and every other lock is held as before.
pub proof fn released_lock_is_free(names: Seq<Seq<u8>>, name: Seq<u8>, other: Seq<u8>)
    ensures
        !unlocked(names, name).contains(name),
        other != name ==> (unlocked(names, name).contains(other) <==> names.contains(other)),
    decreases names.len(),
{
    if names.len() > 0 {
        let front = names.drop_last();
        released_lock_is_free(front, name, other);
        let rest = unlocked(front, name);
        assert(names =~= front.push(names.last()));
        assert(names.contains(other) <==> front.contains(other) || names.last() == other) by {
            if front.contains(other) {
                let i = choose|i: int| 0 <= i < front.len() && front[i] == other;
                assert(names[i] == other);
            }
        }
        if names.last() != name {
            let grown = rest.push(names.last());
            assert(grown.contains(other) <==> rest.contains(other) || names.last() == other) by {
                if rest.contains(other) {
                    let i = choose|i: int| 0 <= i < rest.len() && rest[i] == other;
                    assert(grown[i] == other);
                }
                if names.last() == other {
                    assert(grown[rest.len() as int] == other);
                }
            }
            assert forall|i: int| 0 <= i < grown.len() implies grown[i] != name by {
                if i < rest.len() {
                    assert(rest.contains(rest[i]));
                }
            }
        }
    }
}

/// Check if reentrancy protection is supported.
pub fn is_reentrancy_supported() -> (supported: bool)
    ensures
        supported,
{
    true
}

} // verus!
