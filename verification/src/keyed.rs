//! A small map kept as a list of entries whose keys are pairwise different.
//! Its view is a mathematical map from what identifies a key to the value.

use vstd::prelude::*;

verus! {

/// A key that can be compared at run time, and what identifies it in contracts.
pub trait Key: Sized {
    type Id;

    /// What identifies the key: two keys are the same key when this is equal.
    spec fn id(&self) -> Self::Id;

    /// Whether `self` and `other` are the same key.
    fn same(&self, other: &Self) -> (b: bool)
        ensures
            b == (self.id() == other.id()),
    ;
}

impl Key for String {
    type Id = Seq<char>;

    open spec fn id(&self) -> Seq<char> {
        self@
    }

    fn same(&self, other: &Self) -> (b: bool) {
        *self == *other
    }
}

/// No two entries have the same key.
pub open spec fn distinct_keys<K: Key, T>(es: Seq<(K, T)>) -> bool {
    forall|i: int, j: int| 0 <= i < j < es.len() ==> es[i].0.id() != es[j].0.id()
}

/// The map that a list of entries stands for. Where a key occurs twice, the
/// later entry counts.
pub open spec fn as_map<K: Key, T>(es: Seq<(K, T)>) -> Map<K::Id, T>
    decreases es.len(),
{
    if es.len() == 0 {
        Map::empty()
    } else {
        as_map(es.drop_last()).insert(es.last().0.id(), es.last().1)
    }
}

/// The keys of the map are the keys of the entries, and there are as many.
pub proof fn lemma_as_map_domain<K: Key, T>(es: Seq<(K, T)>)
    requires
        distinct_keys(es),
    ensures
        forall|k: K::Id|
            as_map(es).contains_key(k) <==> exists|i: int|
                0 <= i < es.len() && (#[trigger] es[i]).0.id() == k,
        as_map(es).dom().finite(),
        as_map(es).dom().len() == es.len(),
    decreases es.len(),
{
    if es.len() > 0 {
        let front = es.drop_last();
        let last = es.last();
        lemma_as_map_domain(front);
        assert forall|k: K::Id| as_map(es).contains_key(k) implies exists|i: int|
            0 <= i < es.len() && (#[trigger] es[i]).0.id() == k by {
            if k == last.0.id() {
                assert(es[es.len() - 1].0.id() == k);
            } else {
                let i = choose|i: int| 0 <= i < front.len() && (#[trigger] front[i]).0.id() == k;
                assert(es[i].0.id() == k);
            }
        }
        assert forall|k: K::Id|
            (exists|i: int| 0 <= i < es.len() && (#[trigger] es[i]).0.id() == k) implies as_map(
            es,
        ).contains_key(k) by {
            let i = choose|i: int| 0 <= i < es.len() && (#[trigger] es[i]).0.id() == k;
            if i < es.len() - 1 {
                assert(front[i].0.id() == k);
            }
        }
        if as_map(front).contains_key(last.0.id()) {
            let i = choose|i: int|
                0 <= i < front.len() && (#[trigger] front[i]).0.id() == last.0.id();
            assert(es[i].0.id() == es[es.len() - 1].0.id());
        }
        assert(as_map(es).dom() =~= as_map(front).dom().insert(last.0.id()));
    }
}

/// Each entry is found in the map under its key.
pub proof fn lemma_as_map_entry<K: Key, T>(es: Seq<(K, T)>, i: int)
    requires
        distinct_keys(es),
        0 <= i < es.len(),
    ensures
        as_map(es).contains_key(es[i].0.id()),
        as_map(es)[es[i].0.id()] == es[i].1,
    decreases es.len(),
{
    if i < es.len() - 1 {
        lemma_as_map_entry(es.drop_last(), i);
        assert(es.drop_last()[i] == es[i]);
    }
}

/// Taking one entry out takes its key out of the map.
pub proof fn lemma_as_map_remove<K: Key, T>(es: Seq<(K, T)>, i: int)
    requires
        distinct_keys(es),
        0 <= i < es.len(),
    ensures
        distinct_keys(es.remove(i)),
        as_map(es.remove(i)) == as_map(es).remove(es[i].0.id()),
    decreases es.len(),
{
    let rest = es.remove(i);
    assert forall|a: int, b: int| 0 <= a < b < rest.len() implies rest[a].0.id() != rest[b].0.id() by {
        let a0 = if a < i { a } else { a + 1 };
        let b0 = if b < i { b } else { b + 1 };
        assert(rest[a] == es[a0]);
        assert(rest[b] == es[b0]);
    }
    if i == es.len() - 1 {
        assert(rest =~= es.drop_last());
        lemma_as_map_domain(rest);
        if as_map(rest).contains_key(es[i].0.id()) {
            let j = choose|j: int| 0 <= j < rest.len() && (#[trigger] rest[j]).0.id() == es[i].0.id();
            assert(es[j].0.id() == es[i].0.id());
        }
        assert(as_map(rest) =~= as_map(es).remove(es[i].0.id()));
    } else {
        let front = es.drop_last();
        lemma_as_map_remove(front, i);
        assert(front[i] == es[i]);
        assert(rest.drop_last() =~= front.remove(i));
        assert(rest.last() == es.last());
        assert(es[i].0.id() != es[es.len() - 1].0.id());
        assert(as_map(rest) =~= as_map(es).remove(es[i].0.id()));
    }
}

/// A map from keys to values, as a list of entries with different keys.
#[derive(Debug)]
pub struct KeyedMap<K: Key, T> {
    entries: Vec<(K, T)>,
}

impl<K: Key, T> View for KeyedMap<K, T> {
    type V = Map<K::Id, T>;

    closed spec fn view(&self) -> Map<K::Id, T> {
        as_map(self.entries@)
    }
}

impl<K: Key, T> KeyedMap<K, T> {
    #[verifier::type_invariant]
    spec fn wf(&self) -> bool {
        distinct_keys(self.entries@)
    }

    /// The empty map.
    pub fn new() -> (m: Self)
        ensures
            m@ == Map::<K::Id, T>::empty(),
    {
        KeyedMap { entries: Vec::new() }
    }

    /// The number of entries.
    pub fn len(&self) -> (n: usize)
        ensures
            self@.dom().finite(),
            n == self@.len(),
    {
        proof {
            use_type_invariant(self);
            lemma_as_map_domain(self.entries@);
        }
        self.entries.len()
    }

    /// Whether the map has no entry.
    pub fn is_empty(&self) -> (b: bool)
        ensures
            b == (self@ == Map::<K::Id, T>::empty()),
    {
        proof {
            use_type_invariant(self);
            lemma_as_map_domain(self.entries@);
            if self.entries@.len() > 0 {
                assert(self@.contains_key(self.entries@[0].0.id()));
            } else {
                assert(self@ =~= Map::<K::Id, T>::empty());
            }
        }
        self.entries.len() == 0
    }

    /// Where the entry of `key` stands, if there is one.
    fn position(&self, key: &K) -> (r: Option<usize>)
        ensures
            match r {
                Some(i) => i < self.entries.len() && self.entries@[i as int].0.id() == key.id(),
                None => !self@.contains_key(key.id()),
            },
    {
        let mut i: usize = 0;
        while i < self.entries.len()
            invariant
                i <= self.entries.len(),
                forall|j: int| 0 <= j < i ==> (#[trigger] self.entries@[j]).0.id() != key.id(),
            decreases self.entries.len() - i,
        {
            if self.entries[i].0.same(key) {
                return Some(i);
            }
            i += 1;
        }
        proof {
            use_type_invariant(self);
            lemma_as_map_domain(self.entries@);
        }
        None
    }

    /// Whether `key` has an entry.
    pub fn contains_key(&self, key: &K) -> (b: bool)
        ensures
            b == self@.contains_key(key.id()),
    {
        match self.position(key) {
            Some(i) => {
                proof {
                    use_type_invariant(self);
                    lemma_as_map_entry(self.entries@, i as int);
                }
                true
            },
            None => false,
        }
    }

    /// The value of `key`, if it has an entry.
    pub fn get(&self, key: &K) -> (r: Option<&T>)
        ensures
            match r {
                Some(v) => self@.contains_key(key.id()) && *v == self@[key.id()],
                None => !self@.contains_key(key.id()),
            },
    {
        match self.position(key) {
            Some(i) => {
                proof {
                    use_type_invariant(self);
                    lemma_as_map_entry(self.entries@, i as int);
                }
                Some(&self.entries[i].1)
            },
            None => None,
        }
    }

    /// Takes the entry of `key` out, and returns its value if there was one.
    pub fn remove(&mut self, key: &K) -> (r: Option<T>)
        ensures
            final(self)@ == old(self)@.remove(key.id()),
            match r {
                Some(v) => old(self)@.contains_key(key.id()) && v == old(self)@[key.id()],
                None => !old(self)@.contains_key(key.id()),
            },
    {
        match self.position(key) {
            Some(i) => {
                proof {
                    use_type_invariant(&*self);
                    lemma_as_map_entry(self.entries@, i as int);
                    lemma_as_map_remove(self.entries@, i as int);
                }
                let mut entries: Vec<(K, T)> = Vec::new();
                core::mem::swap(&mut self.entries, &mut entries);
                let e = entries.remove(i);
                self.entries = entries;
                Some(e.1)
            },
            None => {
                proof {
                    assert(self@.remove(key.id()) =~= self@);
                }
                None
            },
        }
    }

    /// Gives `key` the value `value`, and returns the value it had before if
    /// there was one.
    pub fn insert(&mut self, key: K, value: T) -> (r: Option<T>)
        ensures
            final(self)@ == old(self)@.insert(key.id(), value),
            match r {
                Some(v) => old(self)@.contains_key(key.id()) && v == old(self)@[key.id()],
                None => !old(self)@.contains_key(key.id()),
            },
    {
        let before = self.remove(&key);
        proof {
            use_type_invariant(&*self);
            lemma_as_map_domain(self.entries@);
            assert(!self@.contains_key(key.id()));
            assert forall|i: int| 0 <= i < self.entries@.len() implies (
            #[trigger] self.entries@[i]).0.id() != key.id() by {
                if self.entries@[i].0.id() == key.id() {
                    assert(self@.contains_key(key.id()));
                }
            }
            assert(distinct_keys(self.entries@.push((key, value))));
            assert(self.entries@.push((key, value)).drop_last() =~= self.entries@);
            assert(old(self)@.remove(key.id()).insert(key.id(), value) =~= old(self)@.insert(
                key.id(),
                value,
            ));
        }
        let mut entries: Vec<(K, T)> = Vec::new();
        core::mem::swap(&mut self.entries, &mut entries);
        entries.push((key, value));
        self.entries = entries;
        before
    }

    /// Takes one entry out, if there is any.
    pub fn pop(&mut self) -> (r: Option<(K, T)>)
        ensures
            old(self)@.dom().finite(),
            match r {
                Some(e) => old(self)@.contains_key(e.0.id()) && old(self)@[e.0.id()] == e.1
                    && final(self)@ == old(self)@.remove(e.0.id()) && final(self)@.len() + 1
                    == old(self)@.len(),
                None => old(self)@ == Map::<K::Id, T>::empty() && final(self)@ == old(self)@,
            },
    {
        proof {
            use_type_invariant(&*self);
            lemma_as_map_domain(self.entries@);
            if self.entries@.len() > 0 {
                let i = self.entries@.len() - 1;
                lemma_as_map_entry(self.entries@, i);
                lemma_as_map_remove(self.entries@, i);
                assert(self.entries@.remove(i) =~= self.entries@.drop_last());
                lemma_as_map_domain(self.entries@.drop_last());
            } else {
                assert(self@ =~= Map::<K::Id, T>::empty());
            }
        }
        let mut entries: Vec<(K, T)> = Vec::new();
        core::mem::swap(&mut self.entries, &mut entries);
        let last = entries.pop();
        self.entries = entries;
        last
    }

    /// The entries of the map, in no particular order.
    pub fn entries(&self) -> (es: &Vec<(K, T)>)
        ensures
            distinct_keys(es@),
            as_map(es@) == self@,
    {
        proof {
            use_type_invariant(self);
        }
        &self.entries
    }
}

} // verus!
