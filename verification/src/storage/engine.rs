use vstd::prelude::*;

use crate::raft::ids::same_text;

verus! {

/// The key-value store that committed commands are applied to.
#[derive(Debug)]
pub struct StorageEngine {
    data: Vec<(String, String)>,
}

/// The store of the cluster: text keys mapped to text values.
pub type KvStore = StorageEngine;

impl View for StorageEngine {
    type V = Map<Seq<char>, Seq<char>>;

    closed spec fn view(&self) -> Map<Seq<char>, Seq<char>> {
        Map::new(
            |k: Seq<char>| self.keys().contains(k),
            |k: Seq<char>| self.data@[self.keys().index_of(k)].1@,
        )
    }
}

impl StorageEngine {
    /// The stored keys, in the order they were first set.
    closed spec fn keys(&self) -> Seq<Seq<char>> {
        self.data@.map_values(|e: (String, String)| e.0@)
    }

    /// No key is stored twice.
    #[verifier::type_invariant]
    closed spec fn no_duplicate_keys(&self) -> bool {
        self.keys().no_duplicates()
    }

    proof fn lemma_len(&self)
        requires
            self.keys().no_duplicates(),
        ensures
            self@.len() == self.data@.len(),
            self@.dom().finite(),
    {
        self.keys().unique_seq_to_set();
        assert(self@.dom() =~= self.keys().to_set());
    }

    fn position(&self, key: &str) -> (r: Option<usize>)
        ensures
            match r {
                Some(i) => i < self.data@.len() && self.keys()[i as int] == key@,
                None => !self.keys().contains(key@),
            },
    {
        let mut i: usize = 0;
        while i < self.data.len()
            invariant
                i <= self.data.len(),
                forall|j: int| 0 <= j < i ==> self.keys()[j] != key@,
            decreases self.data.len() - i,
        {
            if same_text(self.data[i].0.as_str(), key) {
                return Some(i);
            }
            i = i + 1;
        }
        None
    }

    /// An empty store.
    pub fn new() -> (e: Self)
        ensures
            e@ == Map::<Seq<char>, Seq<char>>::empty(),
    {
        let e = StorageEngine { data: Vec::new() };
        assert(e.keys() =~= Seq::<Seq<char>>::empty());
        assert(e@ =~= Map::<Seq<char>, Seq<char>>::empty());
        e
    }

    /// Stores `value` under `key`, replacing what was there.
    pub fn set(&mut self, key: String, value: String) -> (r: Result<(), String>)
        ensures
            r is Ok,
            final(self)@ == old(self)@.insert(key@, value@),
    {
        proof {
            use_type_invariant(&*self);
        }
        let ghost k = key@;
        let ghost v = value@;
        let ghost before = self.data@;
        match self.position(key.as_str()) {
            Some(i) => {
                let mut data: Vec<(String, String)> = Vec::new();
                std::mem::swap(&mut data, &mut self.data);
                data.set(i, (key, value));
                assert(data@.map_values(|e: (String, String)| e.0@) =~= before.map_values(
                    |e: (String, String)| e.0@,
                ));
                self.data = data;
                assert(self@ =~= old(self)@.insert(k, v)) by {
                    assert forall|x: Seq<char>| self.keys().contains(x) implies self.data@[
                        self.keys().index_of(x)].1@ == old(self)@.insert(k, v)[x] by {
                        let j = self.keys().index_of(x);
                        if x == k {
                            assert(j == i);
                        } else {
                            assert(j != i);
                            assert(old(self).keys()[j] == x);
                            let j0 = old(self).keys().index_of(x);
                            assert(j0 == j);
                        }
                    }
                }
            },
            None => {
                let mut data: Vec<(String, String)> = Vec::new();
                std::mem::swap(&mut data, &mut self.data);
                data.push((key, value));
                assert(data@.map_values(|e: (String, String)| e.0@) =~= before.map_values(
                    |e: (String, String)| e.0@,
                ).push(k));
                self.data = data;
                assert(self@ =~= old(self)@.insert(k, v)) by {
                    broadcast use vstd::seq_lib::lemma_seq_contains_after_push;

                    assert forall|x: Seq<char>| self.keys().contains(x) implies self.data@[
                        self.keys().index_of(x)].1@ == old(self)@.insert(k, v)[x] by {
                        let j = self.keys().index_of(x);
                        if x == k {
                            assert(self.keys()[before.len() as int] == k);
                        } else {
                            assert(old(self).keys().contains(x)) by {
                                assert(old(self).keys()[j] == x);
                            }
                            let j0 = old(self).keys().index_of(x);
                            assert(self.keys()[j0] == x);
                        }
                    }
                }
            },
        }
        Ok(())
    }

    /// The value stored under `key`, if any.
    pub fn get(&self, key: &String) -> (r: Result<Option<String>, String>)
        ensures
            r matches Ok(found) && (match found {
                Some(v) => self@.contains_key(key@) && v@ == self@[key@],
                None => !self@.contains_key(key@),
            }),
    {
        proof {
            use_type_invariant(self);
        }
        match self.position(key.as_str()) {
            Some(i) => {
                proof {
                    assert(self.keys().contains(key@));
                    let j = self.keys().index_of(key@);
                    assert(self.keys()[j] == key@);
                }
                Ok(Some(self.data[i].1.clone()))
            },
            None => Ok(None),
        }
    }

    /// Removes `key`; returns the value it held, if any.
    pub fn delete(&mut self, key: &String) -> (r: Result<Option<String>, String>)
        ensures
            final(self)@ == old(self)@.remove(key@),
            r matches Ok(found) && (match found {
                Some(v) => old(self)@.contains_key(key@) && v@ == old(self)@[key@],
                None => !old(self)@.contains_key(key@),
            }),
    {
        proof {
            use_type_invariant(&*self);
        }
        let ghost before = self.data@;
        let ghost k = key@;
        match self.position(key.as_str()) {
            Some(i) => {
                proof {
                    assert(self.keys().contains(k));
                    let j = self.keys().index_of(k);
                    assert(self.keys()[j] == k);
                }
                let mut data: Vec<(String, String)> = Vec::new();
                std::mem::swap(&mut data, &mut self.data);
                let removed = data.remove(i);
                let ghost old_keys = before.map_values(|e: (String, String)| e.0@);
                let ghost new_keys = data@.map_values(|e: (String, String)| e.0@);
                assert(new_keys =~= old_keys.remove(i as int));
                assert(new_keys.no_duplicates()) by {
                    assert forall|a: int, b: int|
                        0 <= a < b < new_keys.len() implies new_keys[a] != new_keys[b] by {
                        let a0 = if a < i {
                            a
                        } else {
                            a + 1
                        };
                        let b0 = if b < i {
                            b
                        } else {
                            b + 1
                        };
                        assert(new_keys[a] == old_keys[a0]);
                        assert(new_keys[b] == old_keys[b0]);
                    }
                }
                self.data = data;
                assert(self@ =~= old(self)@.remove(k)) by {
                    assert forall|x: Seq<char>| #[trigger] self.keys().contains(x) <==> (
                    old(self).keys().contains(x) && x != k) by {
                        if self.keys().contains(x) {
                            let j = choose|j: int| 0 <= j < self.keys().len() && self.keys()[j] == x;
                            let j0 = if j < i {
                                j
                            } else {
                                j + 1
                            };
                            assert(old(self).keys()[j0] == x);
                            assert(j0 != i);
                        }
                        if old(self).keys().contains(x) && x != k {
                            let j0 = choose|j: int|
                                0 <= j < old(self).keys().len() && old(self).keys()[j] == x;
                            assert(j0 != i);
                            let j = if j0 < i {
                                j0
                            } else {
                                j0 - 1
                            };
                            assert(self.keys()[j] == x);
                        }
                    }
                    assert forall|x: Seq<char>| self.keys().contains(x) implies self.data@[
                        self.keys().index_of(x)].1@ == old(self)@[x] by {
                        let j = self.keys().index_of(x);
                        let j0 = if j < i {
                            j
                        } else {
                            j + 1
                        };
                        assert(old(self).keys()[j0] == x);
                        let jo = old(self).keys().index_of(x);
                        assert(jo == j0);
                    }
                }
                Ok(Some(removed.1))
            },
            None => {
                assert(self@ =~= old(self)@.remove(k));
                Ok(None)
            },
        }
    }

    /// Whether no key is stored.
    pub fn is_empty(&self) -> (r: Result<bool, String>)
        ensures
            r == Ok::<bool, String>(self@.len() == 0),
    {
        proof {
            use_type_invariant(self);
            self.lemma_len();
        }
        Ok(self.data.len() == 0)
    }

    /// Removes every key.
    pub fn clear(&mut self) -> (r: Result<(), String>)
        ensures
            r is Ok,
            final(self)@ == Map::<Seq<char>, Seq<char>>::empty(),
    {
        self.data = Vec::new();
        assert(self.keys() =~= Seq::<Seq<char>>::empty());
        assert(self@ =~= Map::<Seq<char>, Seq<char>>::empty());
        Ok(())
    }

    /// The number of stored keys.
    pub fn len(&self) -> (r: Result<u64, String>)
        ensures
            r == Ok::<u64, String>(self@.len() as u64),
    {
        proof {
            use_type_invariant(self);
            self.lemma_len();
        }
        Ok(self.data.len() as u64)
    }
}

impl Default for StorageEngine {
    fn default() -> (e: Self)
        ensures
            e@ == Map::<Seq<char>, Seq<char>>::empty(),
    {
        StorageEngine::new()
    }
}

} // verus!
