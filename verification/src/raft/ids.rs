use vstd::prelude::*;

use crate::raft::quorum::{at_least, count_at_least, lemma_count_push};

verus! {

/// Whether two string slices hold the same characters.
pub fn same_text(a: &str, b: &str) -> (r: bool)
    ensures
        r == (a@ == b@),
{
    let x: String = a.to_owned();
    let y: String = b.to_owned();
    x == y
}

/// A set of node identifiers, kept as a vector in which no identifier occurs twice.
#[derive(Debug)]
pub struct IdSet {
    items: Vec<String>,
}

impl View for IdSet {
    type V = Set<Seq<char>>;

    closed spec fn view(&self) -> Set<Seq<char>> {
        self.names().to_set()
    }
}

impl Clone for IdSet {
    fn clone(&self) -> (s: Self)
        ensures
            s.names() == self.names(),
            s@ == self@,
            s.wf() == self.wf(),
    {
        let mut items: Vec<String> = Vec::new();
        let mut i: usize = 0;
        while i < self.items.len()
            invariant
                i <= self.items@.len(),
                items@ == self.items@.take(i as int),
            decreases self.items@.len() - i,
        {
            items.push(self.items[i].clone());
            i = i + 1;
            assert(items@ =~= self.items@.take(i as int));
        }
        assert(items@ =~= self.items@);
        IdSet { items }
    }
}

impl IdSet {
    /// The identifiers in the order they were added.
    pub closed spec fn names(&self) -> Seq<Seq<char>> {
        self.items@.map_values(|s: String| s@)
    }

    /// No identifier is stored twice.
    pub closed spec fn wf(&self) -> bool {
        self.names().no_duplicates()
    }

    /// The empty set.
    pub fn new() -> (s: Self)
        ensures
            s.wf(),
            s@ == Set::<Seq<char>>::empty(),
    {
        let s = IdSet { items: Vec::new() };
        assert(s.names() =~= Seq::<Seq<char>>::empty());
        assert(s@ =~= Set::<Seq<char>>::empty());
        s
    }

    fn position(&self, id: &str) -> (r: Option<usize>)
        ensures
            match r {
                Some(i) => i < self.names().len() && self.names()[i as int] == id@,
                None => !self.names().contains(id@),
            },
    {
        let mut i: usize = 0;
        while i < self.items.len()
            invariant
                i <= self.items.len(),
                forall|j: int| 0 <= j < i ==> self.names()[j] != id@,
            decreases self.items.len() - i,
        {
            if same_text(self.items[i].as_str(), id) {
                return Some(i);
            }
            i = i + 1;
        }
        None
    }

    /// Whether `id` is in the set.
    pub fn contains(&self, id: &str) -> (b: bool)
        ensures
            b == self@.contains(id@),
    {
        match self.position(id) {
            Some(i) => {
                assert(self.names().contains(id@));
                true
            },
            None => false,
        }
    }

    /// Adds `id`; returns whether it was new.
    pub fn insert(&mut self, id: String) -> (added: bool)
        requires
            old(self).wf(),
        ensures
            final(self).wf(),
            final(self)@ == old(self)@.insert(id@),
            added == !old(self)@.contains(id@),
    {
        match self.position(id.as_str()) {
            Some(i) => {
                assert(self.names().contains(id@));
                assert(self@ =~= old(self)@.insert(id@));
                false
            },
            None => {
                let ghost v = id@;
                self.items.push(id);
                assert(self.names() =~= old(self).names().push(v));
                assert(self@ =~= old(self)@.insert(v)) by {
                    broadcast use vstd::seq_lib::lemma_seq_contains_after_push;
                }
                true
            },
        }
    }

    /// The set is finite.
    pub proof fn lemma_finite(&self)
        ensures
            self@.finite(),
    {
        vstd::seq_lib::seq_to_set_is_finite(self.names());
    }

    /// The number of identifiers in the set.
    pub fn len(&self) -> (n: usize)
        requires
            self.wf(),
        ensures
            n == self@.len(),
    {
        proof {
            self.names().unique_seq_to_set();
        }
        self.items.len()
    }

    /// Removes every identifier.
    pub fn clear(&mut self)
        ensures
            final(self).wf(),
            final(self)@ == Set::<Seq<char>>::empty(),
    {
        self.items.clear();
        assert(self.names() =~= Seq::<Seq<char>>::empty());
        assert(self@ =~= Set::<Seq<char>>::empty());
    }
}

/// A map from node identifiers to indices, kept as a vector of pairs in which no
/// identifier occurs twice.
#[derive(Debug)]
pub struct IdMap {
    entries: Vec<(String, u64)>,
}

impl View for IdMap {
    type V = Map<Seq<char>, u64>;

    closed spec fn view(&self) -> Map<Seq<char>, u64> {
        Map::new(
            |k: Seq<char>| self.keys().contains(k),
            |k: Seq<char>| self.values()[self.keys().index_of(k)],
        )
    }
}

impl Clone for IdMap {
    fn clone(&self) -> (m: Self)
        ensures
            m.keys() == self.keys(),
            m.values() == self.values(),
            m@ == self@,
            m.wf() == self.wf(),
    {
        let mut entries: Vec<(String, u64)> = Vec::new();
        let mut i: usize = 0;
        while i < self.entries.len()
            invariant
                i <= self.entries@.len(),
                entries@ == self.entries@.take(i as int),
            decreases self.entries@.len() - i,
        {
            entries.push((self.entries[i].0.clone(), self.entries[i].1));
            i = i + 1;
            assert(entries@ =~= self.entries@.take(i as int));
        }
        assert(entries@ =~= self.entries@);
        IdMap { entries }
    }
}

impl IdMap {
    /// The identifiers in the order they were added.
    pub closed spec fn keys(&self) -> Seq<Seq<char>> {
        self.entries@.map_values(|e: (String, u64)| e.0@)
    }

    /// The stored indices, in the order of `keys`.
    pub closed spec fn values(&self) -> Seq<u64> {
        self.entries@.map_values(|e: (String, u64)| e.1)
    }

    /// No identifier is stored twice.
    pub closed spec fn wf(&self) -> bool {
        self.keys().no_duplicates()
    }

    /// The stored indices are one per identifier of the map: the identifiers are those of
    /// the view, each once, and each index is the view's value for its identifier.
    pub proof fn lemma_values_match_view(&self)
        requires
            self.wf(),
        ensures
            self.keys().no_duplicates(),
            self.keys().to_set() == self@.dom(),
            self@.dom().finite(),
            self.keys().len() == self.values().len(),
            self.values().len() == self@.len(),
            forall|i: int|
                0 <= i < self.values().len() ==> #[trigger] self.values()[i] == self@[self.keys()[i]],
            forall|i: int| 0 <= i < self.values().len() ==> self@.contains_key(#[trigger] self.keys()[i]),
    {
        self.keys().unique_seq_to_set();
        vstd::seq_lib::seq_to_set_is_finite(self.keys());
        assert(self@.dom() =~= self.keys().to_set());
        assert forall|i: int| 0 <= i < self.values().len() implies #[trigger] self.values()[i]
            == self@[self.keys()[i]] by {
            assert(self.keys().contains(self.keys()[i]));
            let j = self.keys().index_of(self.keys()[i]);
            assert(self.keys()[j] == self.keys()[i]);
        }
    }

    /// How many of the stored indices reach `x` is how many identifiers of the view have
    /// an index that reaches `x`.
    pub proof fn lemma_count_values(&self, x: u64)
        requires
            self.wf(),
        ensures
            count_at_least(self.values(), x) == self@.dom().filter(reaches(self@, x)).len(),
    {
        self.lemma_values_match_view();
        lemma_count_keyed(self.keys(), self.values(), self@, x);
    }

    /// The empty map.
    pub fn new() -> (m: Self)
        ensures
            m.wf(),
            m@ == Map::<Seq<char>, u64>::empty(),
            m.values() == Seq::<u64>::empty(),
    {
        let m = IdMap { entries: Vec::new() };
        assert(m.keys() =~= Seq::<Seq<char>>::empty());
        assert(m.values() =~= Seq::<u64>::empty());
        assert(m@ =~= Map::<Seq<char>, u64>::empty());
        m
    }

    fn position(&self, id: &str) -> (r: Option<usize>)
        ensures
            match r {
                Some(i) => i < self.keys().len() && self.keys()[i as int] == id@,
                None => !self.keys().contains(id@),
            },
    {
        let mut i: usize = 0;
        while i < self.entries.len()
            invariant
                i <= self.entries.len(),
                forall|j: int| 0 <= j < i ==> self.keys()[j] != id@,
            decreases self.entries.len() - i,
        {
            if same_text(self.entries[i].0.as_str(), id) {
                return Some(i);
            }
            i = i + 1;
        }
        None
    }

    /// The index stored for `id`, if any.
    pub fn get(&self, id: &str) -> (r: Option<u64>)
        requires
            self.wf(),
        ensures
            r == (if self@.contains_key(id@) { Some(self@[id@]) } else { None::<u64> }),
    {
        match self.position(id) {
            Some(i) => {
                proof {
                    self.lemma_values_match_view();
                }
                Some(self.entries[i].1)
            },
            None => None,
        }
    }

    /// Sets the index of `id`, adding `id` when it is not yet present.
    pub fn insert(&mut self, id: String, value: u64)
        requires
            old(self).wf(),
        ensures
            final(self).wf(),
            final(self)@ == old(self)@.insert(id@, value),
            old(self)@.contains_key(id@) ==> exists|i: int|
                0 <= i < old(self).values().len() && final(self).values() == old(self).values().update(
                    i,
                    value,
                ),
            !old(self)@.contains_key(id@) ==> final(self).values() == old(self).values().push(value),
    {
        match self.position(id.as_str()) {
            Some(i) => {
                self.replace_at(i, value);
            },
            None => {
                let ghost k = id@;
                self.entries.push((id, value));
                assert(self.keys() =~= old(self).keys().push(k));
                assert(self.values() =~= old(self).values().push(value));
                assert(self@ =~= old(self)@.insert(k, value)) by {
                    broadcast use vstd::seq_lib::lemma_seq_contains_after_push;
                    assert forall|x: Seq<char>| self.keys().contains(x) implies self.values()[
                        self.keys().index_of(x)] == old(self)@.insert(k, value)[x] by {
                        let j = self.keys().index_of(x);
                        if x == k {
                            assert(self.keys()[old(self).keys().len() as int] == k);
                        } else {
                            assert(old(self).keys().contains(x)) by {
                                assert(old(self).keys()[j] == x);
                            }
                            let j0 = old(self).keys().index_of(x);
                            assert(self.keys()[j0] == x);
                        }
                    }
                }
            },
        }
    }

    fn replace_at(&mut self, i: usize, value: u64)
        requires
            old(self).wf(),
            i < old(self).keys().len(),
        ensures
            final(self).wf(),
            final(self)@ == old(self)@.insert(old(self).keys()[i as int], value),
            final(self).keys() == old(self).keys(),
            final(self).values() == old(self).values().update(i as int, value),
    {
        let ghost k = self.keys()[i as int];
        let name = self.entries[i].0.clone();
        self.entries.set(i, (name, value));
        assert(self.keys() =~= old(self).keys());
        assert(self.values() =~= old(self).values().update(i as int, value));
        assert(self@ =~= old(self)@.insert(k, value)) by {
            assert forall|x: Seq<char>| self.keys().contains(x) implies self.values()[
                self.keys().index_of(x)] == old(self)@.insert(k, value)[x] by {
                let j = self.keys().index_of(x);
                if x == k {
                    assert(j == i);
                } else {
                    assert(j != i);
                }
            }
        }
    }

    /// Sets the index of `id` when `id` is present; otherwise leaves the map as it is.
    pub fn set_existing(&mut self, id: &str, value: u64)
        requires
            old(self).wf(),
        ensures
            final(self).wf(),
            old(self)@.contains_key(id@) ==> final(self)@ == old(self)@.insert(id@, value),
            !old(self)@.contains_key(id@) ==> final(self)@ == old(self)@ && final(self).values()
                == old(self).values(),
            final(self).values().len() == old(self).values().len(),
    {
        match self.position(id) {
            Some(i) => {
                self.replace_at(i, value);
            },
            None => {},
        }
    }

    /// The stored indices, one per identifier.
    pub fn value_list(&self) -> (v: Vec<u64>)
        ensures
            v@ == self.values(),
    {
        let mut v: Vec<u64> = Vec::new();
        let mut i: usize = 0;
        while i < self.entries.len()
            invariant
                i <= self.entries.len(),
                v@ == self.values().subrange(0, i as int),
            decreases self.entries.len() - i,
        {
            v.push(self.entries[i].1);
            i = i + 1;
            assert(v@ =~= self.values().subrange(0, i as int));
        }
        assert(v@ =~= self.values());
        v
    }

    /// The number of identifiers in the map.
    pub fn len(&self) -> (n: usize)
        requires
            self.wf(),
        ensures
            n == self@.len(),
            n == self.values().len(),
    {
        proof {
            self.lemma_values_match_view();
        }
        self.entries.len()
    }
}

/// The test that an identifier's index in `m` reaches `x`.
pub open spec fn reaches(m: Map<Seq<char>, u64>, x: u64) -> spec_fn(Seq<char>) -> bool {
    |k: Seq<char>| m[k] >= x
}

proof fn lemma_count_keyed(ks: Seq<Seq<char>>, vs: Seq<u64>, m: Map<Seq<char>, u64>, x: u64)
    requires
        ks.no_duplicates(),
        ks.len() == vs.len(),
        forall|i: int| 0 <= i < vs.len() ==> #[trigger] vs[i] == m[ks[i]],
    ensures
        ks.to_set().finite(),
        count_at_least(vs, x) == ks.to_set().filter(reaches(m, x)).len(),
    decreases ks.len(),
{
    broadcast use vstd::seq_lib::lemma_seq_contains_after_push;

    vstd::seq_lib::seq_to_set_is_finite(ks);
    let f = reaches(m, x);
    if ks.len() == 0 {
        assert(ks.to_set().filter(f) =~= Set::<Seq<char>>::empty());
        assert(vs =~= Seq::<u64>::empty());
        assert(vs.to_multiset().filter(at_least(x)) =~= vstd::multiset::Multiset::<u64>::empty())
            by {
            broadcast use vstd::multiset::group_multiset_axioms;
            broadcast use vstd::seq_lib::group_to_multiset_ensures;

        }
    } else {
        let ks0 = ks.drop_last();
        let vs0 = vs.drop_last();
        let k = ks.last();
        let v = vs.last();
        assert(ks0.no_duplicates()) by {
            assert forall|i: int, j: int| 0 <= i < ks0.len() && 0 <= j < ks0.len() && i != j implies ks0[i]
                != ks0[j] by {
                assert(ks0[i] == ks[i] && ks0[j] == ks[j]);
            }
        }
        assert forall|i: int| 0 <= i < vs0.len() implies #[trigger] vs0[i] == m[ks0[i]] by {
            assert(vs0[i] == vs[i] && ks0[i] == ks[i]);
        }
        lemma_count_keyed(ks0, vs0, m, x);
        assert(vs0.push(v) =~= vs);
        lemma_count_push(vs0, v, x);
        assert(v == m[k]) by {
            assert(vs[vs.len() - 1] == m[ks[ks.len() - 1]]);
        }
        assert(ks0.push(k) =~= ks);
        assert(ks.to_set() =~= ks0.to_set().insert(k));
        assert(!ks0.to_set().contains(k)) by {
            if ks0.contains(k) {
                let j = ks0.index_of(k);
                assert(ks[j] == ks[ks.len() - 1]);
            }
        }
        ks0.to_set().lemma_len_filter(f);
        if v >= x {
            assert(ks.to_set().filter(f) =~= ks0.to_set().filter(f).insert(k));
        } else {
            assert(ks.to_set().filter(f) =~= ks0.to_set().filter(f));
        }
    }
}

} // verus!
