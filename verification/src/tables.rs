//! The vault's stores: finite maps by id, by address and by statement row, and the
//! indices of subscription ids.
use crate::types::{Address, BillingStatement, Bucket};
use std::collections::BTreeMap;
use vstd::prelude::*;

verus! {

broadcast use {
    vstd::laws_cmp::group_laws_cmp,
    vstd::std_specs::btree::group_btree_axioms,
};

/// A finite map from ids to plain values.
pub struct IdMap<V> {
    pub entries: BTreeMap<u32, V>,
}

impl<V> View for IdMap<V> {
    type V = Map<u32, V>;

    open spec fn view(&self) -> Map<u32, V> {
        self.entries@
    }
}

impl<V: Copy> IdMap<V> {
    /// The empty map.
    pub fn new() -> (map: Self)
        ensures
            map@ == Map::<u32, V>::empty(),
    {
        IdMap { entries: BTreeMap::new() }
    }

    /// The value at `id`, if there is one.
    pub fn get(&self, id: u32) -> (value: Option<V>)
        ensures
            value == self@.get(id),
    {
        match self.entries.get(&id) {
            Some(value) => Some(*value),
            None => None,
        }
    }

    /// Binds `id` to `value`.
    pub fn set(&mut self, id: u32, value: V)
        ensures
            final(self)@ == old(self)@.insert(id, value),
    {
        self.entries.insert(id, value);
    }
}

/// The key under which a statement row is kept.
pub open spec fn row_slot(row: (u32, u32)) -> u64 {
    (row.0 * 0x1_0000_0000 + row.1) as u64
}

/// Statement rows by subscription id and sequence number.
pub struct RowMap {
    pub entries: BTreeMap<u64, BillingStatement>,
}

impl View for RowMap {
    type V = Map<(u32, u32), BillingStatement>;

    open spec fn view(&self) -> Map<(u32, u32), BillingStatement> {
        Map::new(
            |row: (u32, u32)| self.entries@.contains_key(row_slot(row)),
            |row: (u32, u32)| self.entries@[row_slot(row)],
        )
    }
}

impl RowMap {
    /// No rows.
    pub fn new() -> (rows: RowMap)
        ensures
            rows@ == Map::<(u32, u32), BillingStatement>::empty(),
    {
        let rows = RowMap { entries: BTreeMap::new() };
        assert(rows@ =~= Map::<(u32, u32), BillingStatement>::empty());
        rows
    }

    fn slot(subscription_id: u32, sequence: u32) -> (slot: u64)
        ensures
            slot == row_slot((subscription_id, sequence)),
    {
        subscription_id as u64 * 0x1_0000_0000u64 + sequence as u64
    }

    /// The row, if there is one.
    pub fn get(&self, subscription_id: u32, sequence: u32) -> (row: Option<BillingStatement>)
        ensures
            row == self@.get((subscription_id, sequence)),
    {
        match self.entries.get(&Self::slot(subscription_id, sequence)) {
            Some(row) => Some(*row),
            None => None,
        }
    }

    /// Stores a row.
    pub fn set(&mut self, subscription_id: u32, sequence: u32, row: BillingStatement)
        ensures
            final(self)@ == old(self)@.insert((subscription_id, sequence), row),
    {
        self.entries.insert(Self::slot(subscription_id, sequence), row);
        assert(self@ =~= old(self)@.insert((subscription_id, sequence), row));
    }

    /// Removes a row.
    pub fn remove(&mut self, subscription_id: u32, sequence: u32)
        ensures
            final(self)@ == old(self)@.remove((subscription_id, sequence)),
    {
        self.entries.remove(&Self::slot(subscription_id, sequence));
        assert(self@ =~= old(self)@.remove((subscription_id, sequence)));
    }
}

/// A key that running code can compare.
pub trait Key: Copy {
    /// Whether two keys are the same.
    fn same(&self, other: &Self) -> (equal: bool)
        ensures
            equal == (*self == *other),
    ;
}

impl Key for u32 {
    fn same(&self, other: &Self) -> (equal: bool) {
        *self == *other
    }
}

impl Key for Address {
    fn same(&self, other: &Self) -> (equal: bool) {
        *self == *other
    }
}

impl Key for Bucket {
    fn same(&self, other: &Self) -> (equal: bool) {
        *self == *other
    }
}

/// The map that a list of bindings stands for: of two bindings of a key, the first counts.
pub open spec fn bindings<K, V>(entries: Seq<(K, V)>) -> Map<K, V>
    decreases entries.len(),
{
    if entries.len() == 0 {
        Map::empty()
    } else {
        let front = bindings(entries.drop_last());
        let (k, v) = entries.last();
        if front.contains_key(k) {
            front
        } else {
            front.insert(k, v)
        }
    }
}

proof fn lemma_first_binding_counts<K, V>(entries: Seq<(K, V)>, at: int)
    requires
        0 <= at < entries.len(),
        !bindings(entries.take(at)).contains_key(entries[at].0),
    ensures
        bindings(entries).contains_key(entries[at].0),
        bindings(entries)[entries[at].0] == entries[at].1,
    decreases entries.len(),
{
    if at == entries.len() - 1 {
        assert(entries.take(at) =~= entries.drop_last());
    } else {
        assert(entries.drop_last().take(at) =~= entries.take(at));
        lemma_first_binding_counts(entries.drop_last(), at);
    }
}

proof fn lemma_rebinding<K, V>(entries: Seq<(K, V)>, at: int, value: V)
    requires
        0 <= at < entries.len(),
        !bindings(entries.take(at)).contains_key(entries[at].0),
    ensures
        bindings(entries.update(at, (entries[at].0, value))) == bindings(entries).insert(
            entries[at].0,
            value,
        ),
    decreases entries.len(),
{
    let key = entries[at].0;
    let changed = entries.update(at, (key, value));
    if at == entries.len() - 1 {
        assert(entries.take(at) =~= entries.drop_last());
        assert(changed.drop_last() =~= entries.drop_last());
    } else {
        assert(entries.drop_last().take(at) =~= entries.take(at));
        lemma_rebinding(entries.drop_last(), at, value);
        lemma_first_binding_counts(entries.drop_last(), at);
        assert(changed.drop_last() =~= entries.drop_last().update(at, (key, value)));
        assert(changed.last() == entries.last());
    }
    assert(bindings(changed) =~= bindings(entries).insert(key, value));
}

/// A finite map kept as a list of bindings, in the order in which keys were first bound.
pub struct Table<K, V> {
    pub entries: Vec<(K, V)>,
}

impl<K, V> View for Table<K, V> {
    type V = Map<K, V>;

    open spec fn view(&self) -> Map<K, V> {
        bindings(self.entries@)
    }
}

impl<K: Key, V> Table<K, V> {
    /// The empty table.
    pub fn new() -> (table: Self)
        ensures
            table@ == Map::<K, V>::empty(),
    {
        Table { entries: Vec::new() }
    }

    /// Where the first binding of `key` stands.
    fn position(&self, key: K) -> (at: Option<usize>)
        ensures
            match at {
                Some(i) => {
                    &&& i < self.entries@.len()
                    &&& self.entries@[i as int].0 == key
                    &&& !bindings(self.entries@.take(i as int)).contains_key(key)
                },
                None => !self@.contains_key(key),
            },
    {
        let mut i: usize = 0;
        assert(self.entries@.take(0) =~= Seq::<(K, V)>::empty());
        while i < self.entries.len()
            invariant
                i <= self.entries@.len(),
                !bindings(self.entries@.take(i as int)).contains_key(key),
            decreases self.entries@.len() - i,
        {
            if self.entries[i].0.same(&key) {
                return Some(i);
            }
            assert(self.entries@.take(i + 1).drop_last() =~= self.entries@.take(i as int));
            i = i + 1;
        }
        assert(self.entries@.take(i as int) =~= self.entries@);
        None
    }

    /// The value bound to `key`, if there is one.
    pub fn get(&self, key: K) -> (value: Option<&V>)
        ensures
            match value {
                Some(v) => self@.contains_key(key) && *v == self@[key],
                None => !self@.contains_key(key),
            },
    {
        match self.position(key) {
            Some(i) => {
                proof {
                    lemma_first_binding_counts(self.entries@, i as int);
                }
                Some(&self.entries[i].1)
            },
            None => None,
        }
    }

    /// Binds `key` to `value`.
    pub fn set(&mut self, key: K, value: V)
        ensures
            final(self)@ == old(self)@.insert(key, value),
    {
        match self.position(key) {
            Some(i) => {
                proof {
                    lemma_rebinding(self.entries@, i as int, value);
                }
                self.entries.set(i, (key, value));
            },
            None => {
                self.entries.push((key, value));
                assert(self.entries@.drop_last() =~= old(self).entries@);
            },
        }
    }
}

impl<K: Key, V: Copy> Table<K, V> {
    /// A copy of the value bound to `key`, if there is one.
    pub fn lookup(&self, key: K) -> (value: Option<V>)
        ensures
            value == self@.get(key),
    {
        match self.get(key) {
            Some(v) => Some(*v),
            None => None,
        }
    }
}

/// The map whose values are the views of another map's values.
pub open spec fn viewed<K, V: View>(map: Map<K, V>) -> Map<K, V::V> {
    Map::new(|k: K| map.contains_key(k), |k: K| map[k]@)
}

/// Binding a value binds its view.
pub proof fn lemma_viewed_insert<K, V: View>(map: Map<K, V>, key: K, value: V)
    ensures
        viewed(map.insert(key, value)) == viewed(map).insert(key, value@),
{
    assert(viewed(map.insert(key, value)) =~= viewed(map).insert(key, value@));
}

/// Removing a key removes it from the map of views.
pub proof fn lemma_viewed_remove<K, V: View>(map: Map<K, V>, key: K)
    ensures
        viewed(map.remove(key)) == viewed(map).remove(key),
{
    assert(viewed(map.remove(key)) =~= viewed(map).remove(key));
}

/// Views of a list's items.
pub open spec fn viewed_items<V: View>(items: Seq<V>) -> Seq<V::V> {
    Seq::new(items.len(), |i: int| items[i]@)
}

/// The bindings of all keys but one.
pub open spec fn unbound<K, V>(entries: Seq<(K, V)>, key: K) -> Seq<(K, V)>
    decreases entries.len(),
{
    if entries.len() == 0 {
        entries
    } else if entries.last().0 == key {
        unbound(entries.drop_last(), key)
    } else {
        unbound(entries.drop_last(), key).push(entries.last())
    }
}

proof fn lemma_unbound<K, V>(entries: Seq<(K, V)>, key: K)
    ensures
        bindings(unbound(entries, key)) == bindings(entries).remove(key),
    decreases entries.len(),
{
    if entries.len() > 0 {
        lemma_unbound(entries.drop_last(), key);
        let front = unbound(entries.drop_last(), key);
        assert(front.push(entries.last()).drop_last() =~= front);
    }
    assert(bindings(unbound(entries, key)) =~= bindings(entries).remove(key));
}

impl<K: Key, V> Table<K, V> {
    /// Removes `key` and what is bound to it.
    pub fn remove(&mut self, key: K)
        ensures
            final(self)@ == old(self)@.remove(key),
    {
        let mut i: usize = self.entries.len();
        proof {
            lemma_unbound(self.entries@, key);
            assert(self.entries@ =~= self.entries@.take(i as int) + unbound(
                Seq::<(K, V)>::empty(),
                key,
            ));
            assert(self.entries@.take(i as int) =~= self.entries@);
        }
        let ghost all = self.entries@;
        let ghost mut kept: Seq<(K, V)> = Seq::empty();
        while i > 0
            invariant
                i <= all.len(),
                self.entries@ == all.take(i as int) + kept,
                unbound(all, key) == unbound(all.take(i as int), key) + kept,
            decreases i,
        {
            i = i - 1;
            let ghost front = all.take(i as int);
            proof {
                assert(all.take(i + 1).drop_last() =~= front);
                assert(self.entries@[i as int] == all[i as int]);
            }
            if self.entries[i].0.same(&key) {
                self.entries.remove(i);
                assert(self.entries@ =~= front + kept);
            } else {
                proof {
                    let next = seq![all[i as int]] + kept;
                    assert(unbound(front, key).push(all[i as int]) + kept =~= unbound(front, key)
                        + next);
                    assert(all.take(i + 1) + kept =~= front + next);
                    kept = next;
                }
            }
        }
        assert(all.take(0) =~= Seq::<(K, V)>::empty());
        assert(self.entries@ =~= unbound(all, key));
    }

    /// The keys, each once, in the order in which they were first bound.
    pub fn keys(&self) -> (keys: Vec<K>)
        ensures
            keys@.no_duplicates(),
            forall|k: K| keys@.contains(k) <==> self@.contains_key(k),
    {
        let mut keys: Vec<K> = Vec::new();
        let mut i: usize = 0;
        assert(self.entries@.take(0) =~= Seq::<(K, V)>::empty());
        while i < self.entries.len()
            invariant
                i <= self.entries@.len(),
                keys@.no_duplicates(),
                forall|k: K|
                    keys@.contains(k) <==> bindings(self.entries@.take(i as int)).contains_key(k),
            decreases self.entries@.len() - i,
        {
            let key = self.entries[i].0;
            let mut known = false;
            let mut j: usize = 0;
            while j < keys.len()
                invariant
                    j <= keys@.len(),
                    known <==> exists|n: int| 0 <= n < j && keys@[n] == key,
                decreases keys@.len() - j,
            {
                if keys[j].same(&key) {
                    known = true;
                }
                j = j + 1;
            }
            proof {
                assert(known <==> keys@.contains(key));
                assert(self.entries@.take(i + 1).drop_last() =~= self.entries@.take(i as int));
            }
            let ghost before = keys@;
            if !known {
                keys.push(key);
                assert forall|k: K| keys@.contains(k) <==> (before.contains(k) || k == key) by {
                    if before.contains(k) {
                        let n = choose|n: int| 0 <= n < before.len() && before[n] == k;
                        assert(keys@[n] == k);
                    }
                    if k == key {
                        assert(keys@[before.len() as int] == k);
                    }
                }
            }
            assert forall|k: K| keys@.contains(k) <==> bindings(
                self.entries@.take(i + 1),
            ).contains_key(k) by {
                assert(before.contains(k) <==> bindings(
                    self.entries@.take(i as int),
                ).contains_key(k));
                assert(before.contains(key) <==> bindings(
                    self.entries@.take(i as int),
                ).contains_key(key));
            }
            i = i + 1;
        }
        assert(self.entries@.take(i as int) =~= self.entries@);
        keys
    }
}

/// The ids that an index lists for `who`, in the order in which they were added.
pub open spec fn listed(index: Seq<(Address, u32)>, who: Address) -> Seq<u32>
    decreases index.len(),
{
    if index.len() == 0 {
        Seq::empty()
    } else {
        let front = listed(index.drop_last(), who);
        if index.last().0 == who {
            front.push(index.last().1)
        } else {
            front
        }
    }
}

/// An index of subscription ids by address.
pub struct IdIndex {
    pub entries: Vec<(Address, u32)>,
}

impl View for IdIndex {
    type V = Seq<(Address, u32)>;

    open spec fn view(&self) -> Seq<(Address, u32)> {
        self.entries@
    }
}

impl IdIndex {
    /// An index without ids.
    pub fn new() -> (index: IdIndex)
        ensures
            index@ == Seq::<(Address, u32)>::empty(),
    {
        IdIndex { entries: Vec::new() }
    }

    /// Adds `id` to the ids of `who`.
    pub fn add_id(&mut self, who: Address, id: u32)
        ensures
            final(self)@ == old(self)@.push((who, id)),
    {
        self.entries.push((who, id));
    }

    /// The ids of `who`.
    pub fn ids_of(&self, who: Address) -> (ids: Vec<u32>)
        ensures
            ids@ == listed(self@, who),
    {
        let mut ids: Vec<u32> = Vec::new();
        let mut i: usize = 0;
        assert(self.entries@.take(0) =~= Seq::<(Address, u32)>::empty());
        while i < self.entries.len()
            invariant
                i <= self.entries@.len(),
                ids@ == listed(self.entries@.take(i as int), who),
            decreases self.entries@.len() - i,
        {
            assert(self.entries@.take(i + 1).drop_last() =~= self.entries@.take(i as int));
            if self.entries[i].0 == who {
                ids.push(self.entries[i].1);
            }
            i = i + 1;
        }
        assert(self.entries@.take(i as int) =~= self.entries@);
        ids
    }
}

/// An id added for one address joins the end of that address's list and no other list.
pub proof fn added_id_is_listed_last(
    index: Seq<(Address, u32)>,
    who: Address,
    id: u32,
    other: Address,
)
    ensures
        listed(index.push((who, id)), who) == listed(index, who).push(id),
        other != who ==> listed(index.push((who, id)), other) == listed(index, other),
{
    assert(index.push((who, id)).drop_last() =~= index);
}

/// Whether two texts are the same.
pub fn same_text(a: &Vec<u8>, b: &Vec<u8>) -> (equal: bool)
    ensures
        equal == (a@ == b@),
{
    if a.len() != b.len() {
        return false;
    }
    let mut i: usize = 0;
    while i < a.len()
        invariant
            i <= a@.len(),
            a@.len() == b@.len(),
            forall|n: int| 0 <= n < i ==> a@[n] == b@[n],
        decreases a@.len() - i,
    {
        if a[i] != b[i] {
            return false;
        }
        i = i + 1;
    }
    assert(a@ =~= b@);
    true
}

/// A copy of a text.
pub fn copy_text(text: &Vec<u8>) -> (copy: Vec<u8>)
    ensures
        copy@ == text@,
{
    let mut copy: Vec<u8> = Vec::new();
    let mut i: usize = 0;
    while i < text.len()
        invariant
            i <= text@.len(),
            copy@ == text@.take(i as int),
        decreases text@.len() - i,
    {
        copy.push(text[i]);
        i = i + 1;
        assert(copy@ =~= text@.take(i as int));
    }
    assert(copy@ =~= text@);
    copy
}

/// At most `limit` items of `items`, from position `offset` on.
pub open spec fn window<T>(items: Seq<T>, offset: int, limit: int) -> Seq<T> {
    if offset >= items.len() {
        Seq::empty()
    } else if offset + limit >= items.len() {
        items.skip(offset)
    } else {
        items.subrange(offset, offset + limit)
    }
}

} // verus!
