//! An explicit keyed state store: key to owned per-key state, with
//! insert-on-first-use and remove-on-forget semantics.
//!
//! This is the arena the stateful operators keep their per-key accumulators
//! in. Its abstract value is a map from key (a character sequence) to the deep
//! view of the stored state; the entry sequence is also exposed so snapshot
//! capture can walk the resident keys in a definite order.

use vstd::prelude::*;

verus! {

/// The abstraction of one entry sequence: each entry as (key view, state view).
pub open spec fn entries_view<T: DeepView>(s: Seq<(String, T)>) -> Seq<
    (Seq<char>, <T as DeepView>::V),
> {
    s.map(|i: int, e: (String, T)| (e.0@, e.1.deep_view()))
}

/// No two entries share a key.
pub open spec fn distinct_keys<KV>(s: Seq<(Seq<char>, KV)>) -> bool {
    forall|i: int, j: int| 0 <= i < j < s.len() ==> s[i].0 != s[j].0
}

/// The map an entry sequence denotes: later entries win (entries here are
/// distinct anyway).
pub open spec fn map_of<KV>(s: Seq<(Seq<char>, KV)>) -> Map<Seq<char>, KV>
    decreases s.len(),
{
    if s.len() == 0 {
        Map::<Seq<char>, KV>::empty()
    } else {
        map_of(s.drop_last()).insert(s.last().0, s.last().1)
    }
}

/// A key is in the map exactly when some entry carries it.
pub proof fn lemma_map_of_contains<KV>(s: Seq<(Seq<char>, KV)>, k: Seq<char>)
    ensures
        map_of(s).contains_key(k) <==> exists|i: int| 0 <= i < s.len() && s[i].0 == k,
    decreases s.len(),
{
    if s.len() > 0 {
        lemma_map_of_contains(s.drop_last(), k);
        if map_of(s).contains_key(k) {
            if s.last().0 == k {
                assert(s[s.len() - 1].0 == k);
            } else {
                let i = choose|i: int| 0 <= i < s.drop_last().len() && s.drop_last()[i].0 == k;
                assert(s[i].0 == k);
            }
        }
        if exists|i: int| 0 <= i < s.len() && s[i].0 == k {
            let i = choose|i: int| 0 <= i < s.len() && s[i].0 == k;
            if i < s.len() - 1 {
                assert(s.drop_last()[i].0 == k);
            }
        }
    }
}

/// With distinct keys, the map's value at a key is the value of the entry
/// that carries it.
pub proof fn lemma_map_of_index<KV>(s: Seq<(Seq<char>, KV)>, i: int)
    requires
        distinct_keys(s),
        0 <= i < s.len(),
    ensures
        map_of(s).contains_key(s[i].0),
        map_of(s)[s[i].0] == s[i].1,
    decreases s.len(),
{
    if i == s.len() - 1 {
    } else {
        assert(s[i].0 != s.last().0);
        assert(s.drop_last()[i] == s[i]);
        lemma_map_of_index(s.drop_last(), i);
    }
}

/// Appending a new entry inserts its binding.
pub proof fn lemma_map_of_push<KV>(s: Seq<(Seq<char>, KV)>, k: Seq<char>, v: KV)
    ensures
        map_of(s.push((k, v))) == map_of(s).insert(k, v),
{
    assert(s.push((k, v)).drop_last() =~= s);
    assert(s.push((k, v)).last() == (k, v));
}

/// With distinct keys, removing the entry at an index removes exactly its
/// binding from the map.
pub proof fn lemma_map_of_remove<KV>(s: Seq<(Seq<char>, KV)>, i: int)
    requires
        distinct_keys(s),
        0 <= i < s.len(),
    ensures
        map_of(s.remove(i)) =~= map_of(s).remove(s[i].0),
        distinct_keys(s.remove(i)),
    decreases s.len(),
{
    assert forall|x: int, y: int| 0 <= x < y < s.remove(i).len() implies s.remove(i)[x].0 != s.remove(
        i,
    )[y].0 by {
        let x0 = if x < i { x } else { x + 1 };
        let y0 = if y < i { y } else { y + 1 };
        assert(s.remove(i)[x] == s[x0]);
        assert(s.remove(i)[y] == s[y0]);
    }
    if i == s.len() - 1 {
        assert(s.remove(i) =~= s.drop_last());
        lemma_map_of_contains(s.drop_last(), s[i].0);
        assert(!map_of(s.drop_last()).contains_key(s[i].0));
        assert(map_of(s.drop_last()) =~= map_of(s).remove(s[i].0));
    } else {
        let k = s[i].0;
        assert(s.remove(i).last() == s.last());
        assert(s.remove(i).drop_last() =~= s.drop_last().remove(i));
        assert(s.drop_last()[i] == s[i]);
        lemma_map_of_remove(s.drop_last(), i);
        assert(map_of(s.remove(i)) == map_of(s.drop_last().remove(i)).insert(
            s.last().0,
            s.last().1,
        ));
        assert(k != s.last().0);
        assert(map_of(s.drop_last()).remove(k).insert(s.last().0, s.last().1) =~= map_of(
            s.drop_last(),
        ).insert(s.last().0, s.last().1).remove(k));
    }
}

/// Per-key state, addressed by key: created on first use, removed on an
/// explicit forget signal, never shared between keys.
pub struct KeyedStore<T: DeepView> {
    entries: Vec<(String, T)>,
}

impl<T: DeepView> View for KeyedStore<T> {
    type V = Map<Seq<char>, <T as DeepView>::V>;

    closed spec fn view(&self) -> Map<Seq<char>, <T as DeepView>::V> {
        map_of(self.entries())
    }
}

impl<T: DeepView> KeyedStore<T> {
    /// The resident entries, in storage order, as (key view, state view).
    pub closed spec fn entries(&self) -> Seq<(Seq<char>, <T as DeepView>::V)> {
        entries_view(self.entries@)
    }

    /// Well-formed: no key is resident twice.
    pub closed spec fn wf(&self) -> bool {
        distinct_keys(self.entries())
    }

    /// The store's map is the fold of its entry sequence.
    pub proof fn lemma_view_is_fold(&self)
        ensures
            self@ == map_of(self.entries()),
    {
    }

    /// An empty store.
    pub fn new() -> (r: KeyedStore<T>)
        ensures
            r.wf(),
            r@ == Map::<Seq<char>, <T as DeepView>::V>::empty(),
            r.entries() == Seq::<(Seq<char>, <T as DeepView>::V)>::empty(),
    {
        let r = KeyedStore { entries: Vec::new() };
        proof {
            assert(r.entries() =~= Seq::<(Seq<char>, <T as DeepView>::V)>::empty());
        }
        r
    }

    /// How many keys are resident.
    pub fn len(&self) -> (r: usize)
        ensures
            r == self.entries().len(),
    {
        self.entries.len()
    }

    /// The index of the entry carrying this key, if the key is resident.
    fn find(&self, key: &String) -> (r: Option<usize>)
        ensures
            match r {
                Some(i) => 0 <= i < self.entries().len() && self.entries()[i as int].0 == key@,
                None => forall|i: int| 0 <= i < self.entries().len() ==> self.entries()[i].0 != key@,
            },
    {
        let mut i: usize = 0;
        while i < self.entries.len()
            invariant
                i <= self.entries@.len(),
                forall|j: int| 0 <= j < i ==> self.entries()[j].0 != key@,
            decreases self.entries@.len() - i,
        {
            if self.entries[i].0 == *key {
                return Some(i);
            }
            i = i + 1;
        }
        None
    }

    /// A borrow of the state for a key, if the key is resident.
    pub fn get(&self, key: &String) -> (r: Option<&T>)
        requires
            self.wf(),
        ensures
            match r {
                Some(t) => self@.contains_key(key@) && t.deep_view() == self@[key@],
                None => !self@.contains_key(key@),
            },
    {
        proof {
            lemma_map_of_contains(self.entries(), key@);
        }
        match self.find(key) {
            Some(i) => {
                proof {
                    lemma_map_of_index(self.entries(), i as int);
                }
                Some(&self.entries[i].1)
            },
            None => None,
        }
    }

    /// Remove and hand back the state for a key: the explicit forget signal.
    /// Leaves every other key's state untouched.
    pub fn take(&mut self, key: &String) -> (r: Option<T>)
        requires
            old(self).wf(),
        ensures
            final(self).wf(),
            match r {
                Some(t) => old(self)@.contains_key(key@) && t.deep_view() == old(self)@[key@]
                    && final(self)@ == old(self)@.remove(key@),
                None => !old(self)@.contains_key(key@) && final(self)@ == old(self)@
                    && final(self).entries() == old(self).entries(),
            },
    {
        proof {
            lemma_map_of_contains(self.entries(), key@);
        }
        match self.find(key) {
            Some(i) => {
                proof {
                    lemma_map_of_index(self.entries(), i as int);
                    lemma_map_of_remove(self.entries(), i as int);
                    assert(entries_view(self.entries@.remove(i as int)) =~= self.entries().remove(
                        i as int,
                    ));
                }
                let (_, t) = self.entries.remove(i);
                Some(t)
            },
            None => None,
        }
    }

    /// Bind a key to a state, replacing any state it had.
    pub fn insert(&mut self, key: String, value: T)
        requires
            old(self).wf(),
        ensures
            final(self).wf(),
            final(self)@ == old(self)@.insert(key@, value.deep_view()),
    {
        let _ = self.take(&key);
        proof {
            lemma_map_of_contains(self.entries(), key@);
            lemma_map_of_push(self.entries(), key@, value.deep_view());
            assert(entries_view(self.entries@.push((key, value))) =~= self.entries().push(
                (key@, value.deep_view()),
            ));
            assert(old(self)@.remove(key@).insert(key@, value.deep_view()) =~= old(self)@.insert(
                key@,
                value.deep_view(),
            ));
            assert(old(self)@.insert(key@, value.deep_view()) =~= old(self)@.insert(
                key@,
                value.deep_view(),
            ));
        }
        self.entries.push((key, value));
    }

    /// The key of the entry at an index, for walking the resident keys.
    pub fn key_at(&self, i: usize) -> (r: &String)
        requires
            i < self.entries().len(),
        ensures
            r@ == self.entries()[i as int].0,
    {
        &self.entries[i].0
    }

    /// The state of the entry at an index, for walking the resident states.
    pub fn value_at(&self, i: usize) -> (r: &T)
        requires
            i < self.entries().len(),
        ensures
            r.deep_view() == self.entries()[i as int].1,
    {
        &self.entries[i].1
    }
}

} // verus!
