use vstd::prelude::*;
use crate::ids::Entity;

verus! {

/// Entries ordered by strictly increasing entity index.
pub open spec fn sorted_by_entity<T>(s: Seq<(Entity, T)>) -> bool {
    forall|i: int, j: int| 0 <= i < j < s.len() ==> s[i].0.0 < s[j].0.0
}

/// No key occurs twice among the pairs.
pub open spec fn unique_keys<K, T>(s: Seq<(K, T)>) -> bool {
    forall|i: int, j: int| 0 <= i < s.len() && 0 <= j < s.len() && i != j ==> s[i].0 != s[j].0
}

/// Whether some pair of `s` has the key `k`.
pub open spec fn has_key<K, T>(s: Seq<(K, T)>, k: K) -> bool {
    exists|i: int| 0 <= i < s.len() && s[i].0 == k
}

/// The position of a pair with the key `k` in `s`.
pub open spec fn key_index<K, T>(s: Seq<(K, T)>, k: K) -> int {
    choose|i: int| 0 <= i < s.len() && s[i].0 == k
}

/// The map from key to value that the pairs describe.
pub open spec fn pairs_map<K, T>(s: Seq<(K, T)>) -> Map<K, T> {
    Map::new(|k: K| has_key(s, k), |k: K| s[key_index(s, k)].1)
}

/// Ordered entries have unique entities.
pub(crate) proof fn lemma_sorted_unique<T>(s: Seq<(Entity, T)>)
    requires
        sorted_by_entity(s),
    ensures
        unique_keys(s),
{
    assert forall|i: int, j: int|
        0 <= i < s.len() && 0 <= j < s.len() && i != j implies s[i].0 != s[j].0 by {
        if i < j {
            assert(s[i].0.0 < s[j].0.0);
        } else {
            assert(s[j].0.0 < s[i].0.0);
        }
    }
}

/// With unique keys, the pair at `i` is the one the map gives for its key.
pub(crate) proof fn lemma_entry_in_map<K, T>(s: Seq<(K, T)>, i: int)
    requires
        unique_keys(s),
        0 <= i < s.len(),
    ensures
        pairs_map(s).contains_key(s[i].0),
        pairs_map(s)[s[i].0] == s[i].1,
{
    assert(has_key(s, s[i].0));
    let j = key_index(s, s[i].0);
    assert(s[j].0 == s[i].0);
}

/// An entity that falls between the entries before `k` and the one at `k` has no entry.
proof fn lemma_absent<T>(s: Seq<(Entity, T)>, e: Entity, k: int)
    requires
        sorted_by_entity(s),
        0 <= k <= s.len(),
        forall|i: int| 0 <= i < k ==> s[i].0.0 < e.0,
        k < s.len() ==> s[k].0.0 >= e.0,
        k < s.len() ==> s[k].0 != e,
    ensures
        !pairs_map(s).contains_key(e),
{
    if has_key(s, e) {
        let j = key_index(s, e);
        if j > k {
            assert(s[k].0.0 < s[j].0.0);
        }
        if j == k {
            assert(s[k].0.0 == e.0);
        }
    }
}

/// Replacing the value at position `k` replaces it in the map.
pub(crate) proof fn lemma_update_map<K, T>(s: Seq<(K, T)>, k: int, v: T)
    requires
        unique_keys(s),
        0 <= k < s.len(),
    ensures
        unique_keys(s.update(k, (s[k].0, v))),
        pairs_map(s.update(k, (s[k].0, v))) =~= pairs_map(s).insert(s[k].0, v),
{
    let t = s.update(k, (s[k].0, v));
    let e = s[k].0;
    assert forall|i: int, j: int|
        0 <= i < t.len() && 0 <= j < t.len() && i != j implies t[i].0 != t[j].0 by {
        assert(t[i].0 == s[i].0 && t[j].0 == s[j].0);
    }
    assert forall|x: K| #[trigger] has_key(t, x) == (x == e || has_key(s, x)) by {
        if has_key(s, x) {
            let j = key_index(s, x);
            assert(t[j].0 == x);
        }
        if has_key(t, x) {
            let j = key_index(t, x);
            assert(s[j].0 == x);
        }
        if x == e {
            assert(t[k].0 == x);
        }
    }
    assert forall|x: K| has_key(t, x) implies #[trigger] pairs_map(t)[x] == pairs_map(s).insert(
        e,
        v,
    )[x] by {
        let j = key_index(t, x);
        lemma_entry_in_map(t, j);
        if x != e {
            lemma_entry_in_map(s, j);
        }
    }
}

/// Inserting a new entry at position `k`, where it keeps the order, adds it to the map.
proof fn lemma_insert_map<T>(s: Seq<(Entity, T)>, k: int, e: Entity, v: T)
    requires
        sorted_by_entity(s),
        0 <= k <= s.len(),
        forall|i: int| 0 <= i < k ==> s[i].0.0 < e.0,
        k < s.len() ==> s[k].0.0 > e.0,
    ensures
        sorted_by_entity(s.insert(k, (e, v))),
        pairs_map(s.insert(k, (e, v))) =~= pairs_map(s).insert(e, v),
{
    let t = s.insert(k, (e, v));
    assert forall|i: int, j: int| 0 <= i < j < t.len() implies t[i].0.0 < t[j].0.0 by {
        if j < k {
        } else if j == k {
        } else if i < k {
            assert(s[k].0.0 <= s[j - 1].0.0);
        } else if i == k {
            assert(s[k].0.0 <= s[j - 1].0.0);
        } else {
        }
    }
    assert forall|x: Entity| #[trigger] has_key(t, x) == (x == e || has_key(s, x)) by {
        if has_key(s, x) {
            let j = key_index(s, x);
            if j < k {
                assert(t[j].0 == x);
            } else {
                assert(t[j + 1].0 == x);
            }
        }
        if has_key(t, x) {
            let j = key_index(t, x);
            if j < k {
                assert(s[j].0 == x);
            } else if j > k {
                assert(s[j - 1].0 == x);
            }
        }
        if x == e {
            assert(t[k].0 == x);
        }
    }
    assert forall|x: Entity| has_key(t, x) implies #[trigger] pairs_map(t)[x] == pairs_map(
        s,
    ).insert(e, v)[x] by {
        let j = key_index(t, x);
        lemma_entry_in_map(t, j);
        if j < k {
            lemma_entry_in_map(s, j);
        } else if j > k {
            lemma_entry_in_map(s, j - 1);
        }
    }
}

/// Appending a pair with a new key adds it to the map.
pub(crate) proof fn lemma_push_map<K, T>(s: Seq<(K, T)>, k: K, v: T)
    requires
        unique_keys(s),
        !has_key(s, k),
    ensures
        unique_keys(s.push((k, v))),
        pairs_map(s.push((k, v))) =~= pairs_map(s).insert(k, v),
{
    let t = s.push((k, v));
    assert forall|x: K| #[trigger] has_key(t, x) == (x == k || has_key(s, x)) by {
        if has_key(s, x) {
            let j = key_index(s, x);
            assert(t[j].0 == x);
        }
        if has_key(t, x) {
            let j = key_index(t, x);
            if j < s.len() {
                assert(s[j].0 == x);
            }
        }
        if x == k {
            assert(t[s.len() as int].0 == x);
        }
    }
    assert forall|x: K| has_key(t, x) implies #[trigger] pairs_map(t)[x] == pairs_map(s).insert(
        k,
        v,
    )[x] by {
        let j = key_index(t, x);
        lemma_entry_in_map(t, j);
        if j < s.len() {
            lemma_entry_in_map(s, j);
        }
    }
}

/// The map of pairs with unique keys has one key per pair.
pub(crate) proof fn lemma_pairs_map_len<K, T>(s: Seq<(K, T)>)
    requires
        unique_keys(s),
    ensures
        pairs_map(s).dom().finite(),
        pairs_map(s).len() == s.len(),
    decreases s.len(),
{
    if s.len() == 0 {
        assert(pairs_map(s).dom() =~= Set::<K>::empty());
    } else {
        let p = s.drop_last();
        lemma_pairs_map_len(p);
        let e = s.last().0;
        assert forall|x: K| #[trigger] has_key(s, x) == (x == e || has_key(p, x)) by {
            if has_key(s, x) {
                let j = key_index(s, x);
                if j < s.len() - 1 {
                    assert(p[j].0 == x);
                }
            }
            if has_key(p, x) {
                let j = key_index(p, x);
                assert(s[j].0 == x);
            }
            if x == e {
                assert(s[s.len() - 1].0 == x);
            }
        }
        assert(pairs_map(s).dom() =~= pairs_map(p).dom().insert(e));
        if has_key(p, e) {
            let j = key_index(p, e);
            assert(s[j].0 == s[s.len() - 1].0);
        }
    }
}

/// A component storage: at most one component of type `T` per entity,
/// walked in the order of the entity index.
pub struct Storage<T> {
    entries: Vec<(Entity, T)>,
}

impl<T> Storage<T> {
    #[verifier::type_invariant]
    spec fn well_formed(self) -> bool {
        sorted_by_entity(self.entries@)
    }

    /// The entries, in increasing order of the entity index.
    pub closed spec fn entries(&self) -> Seq<(Entity, T)> {
        self.entries@
    }

    /// The component of each entity that has one.
    pub open spec fn view(&self) -> Map<Entity, T> {
        pairs_map(self.entries())
    }

    /// An empty storage.
    pub fn new() -> (s: Self)
        ensures
            s.entries() == Seq::<(Entity, T)>::empty(),
            s@ == Map::<Entity, T>::empty(),
            sorted_by_entity(s.entries()),
    {
        let s = Storage { entries: Vec::new() };
        assert(s@ =~= Map::<Entity, T>::empty());
        s
    }

    /// The number of entities that have a component.
    pub fn len(&self) -> (n: usize)
        ensures
            n == self.entries().len(),
            n == self@.len(),
            sorted_by_entity(self.entries()),
    {
        proof {
            use_type_invariant(self);
            lemma_sorted_unique(self.entries());
            lemma_pairs_map_len(self.entries());
        }
        self.entries.len()
    }

    /// The `i`-th entry in the order of the entity index.
    pub fn entry_at(&self, i: usize) -> (r: (Entity, &T))
        requires
            i < self.entries().len(),
        ensures
            r.0 == self.entries()[i as int].0,
            *r.1 == self.entries()[i as int].1,
            self@.contains_key(r.0),
            self@[r.0] == *r.1,
            sorted_by_entity(self.entries()),
    {
        proof {
            use_type_invariant(self);
            lemma_sorted_unique(self.entries());
            lemma_entry_in_map(self.entries(), i as int);
        }
        let entry = &self.entries[i];
        (entry.0, &entry.1)
    }

    /// The position of the first entry whose entity index is not below `e`'s.
    fn lower_bound(&self, e: Entity) -> (k: usize)
        ensures
            k <= self.entries().len(),
            forall|i: int| 0 <= i < k ==> self.entries()[i].0.0 < e.0,
            k < self.entries().len() ==> self.entries()[k as int].0.0 >= e.0,
    {
        let mut k: usize = 0;
        while k < self.entries.len()
            invariant
                k <= self.entries@.len(),
                forall|i: int| 0 <= i < k ==> self.entries@[i].0.0 < e.0,
            decreases self.entries@.len() - k,
        {
            if self.entries[k].0.0 >= e.0 {
                return k;
            }
            k = k + 1;
        }
        k
    }

    /// The component of `e`, if it has one.
    pub fn get(&self, e: Entity) -> (r: Option<&T>)
        ensures
            match r {
                Some(v) => self@.contains_key(e) && *v == self@[e],
                None => !self@.contains_key(e),
            },
            sorted_by_entity(self.entries()),
    {
        proof {
            use_type_invariant(self);
            lemma_sorted_unique(self.entries());
        }
        let k = self.lower_bound(e);
        if k < self.entries.len() && self.entries[k].0 == e {
            proof {
                lemma_entry_in_map(self.entries(), k as int);
            }
            Some(&self.entries[k].1)
        } else {
            proof {
                lemma_absent(self.entries(), e, k as int);
            }
            None
        }
    }

    /// Whether `e` has a component.
    pub fn contains(&self, e: Entity) -> (b: bool)
        ensures
            b == self@.contains_key(e),
            sorted_by_entity(self.entries()),
    {
        match self.get(e) {
            Some(_) => true,
            None => false,
        }
    }

    /// Gives `e` the component `v`, and hands back the one it replaces.
    pub fn insert(&mut self, e: Entity, v: T) -> (r: Option<T>)
        ensures
            final(self)@ == old(self)@.insert(e, v),
            sorted_by_entity(final(self).entries()),
            match r {
                Some(u) => old(self)@.contains_key(e) && u == old(self)@[e],
                None => !old(self)@.contains_key(e),
            },
    {
        proof {
            use_type_invariant(&*self);
            lemma_sorted_unique(self.entries());
        }
        let ghost before = self.entries@;
        let k = self.lower_bound(e);
        let mut entries: Vec<(Entity, T)> = Vec::new();
        std::mem::swap(&mut entries, &mut self.entries);
        if k < entries.len() && entries[k].0 == e {
            proof {
                lemma_entry_in_map(before, k as int);
                lemma_update_map(before, k as int, v);
            }
            let (_, u) = entries.remove(k);
            entries.insert(k, (e, v));
            assert(entries@ =~= before.update(k as int, (e, v)));
            self.entries = entries;
            Some(u)
        } else {
            proof {
                lemma_absent(before, e, k as int);
                lemma_insert_map(before, k as int, e, v);
            }
            entries.insert(k, (e, v));
            assert(entries@ =~= before.insert(k as int, (e, v)));
            self.entries = entries;
            None
        }
    }
}

} // verus!

verus! {

/// The events of one kind written during a run, oldest first; the program
/// hands them on to the readers of the event channel.
pub struct EventChannel<E> {
    events: Vec<E>,
}

impl<E> EventChannel<E> {
    /// The events written so far, oldest first.
    pub closed spec fn view(&self) -> Seq<E> {
        self.events@
    }

    /// A channel with no event written.
    pub fn new() -> (c: Self)
        ensures
            c@ == Seq::<E>::empty(),
    {
        EventChannel { events: Vec::new() }
    }

    /// Writes one event.
    pub fn single_write(&mut self, event: E)
        ensures
            final(self)@ == old(self)@.push(event),
    {
        self.events.push(event);
    }

    /// Hands out the events written so far, oldest first, and forgets them.
    pub fn drain(&mut self) -> (out: Vec<E>)
        ensures
            out@ == old(self)@,
            final(self)@ == Seq::<E>::empty(),
    {
        let mut out: Vec<E> = Vec::new();
        std::mem::swap(&mut out, &mut self.events);
        out
    }
}

} // verus!
