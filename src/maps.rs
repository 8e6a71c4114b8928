//! A string-keyed map whose keys stay unique, used for labels, annotations
//! and the map-valued fields of image configurations.

use vstd::prelude::*;

verus! {

/// A value that can be copied into an equal one.
pub trait Duplicate: Sized + View {
    fn duplicate(&self) -> (r: Self)
        ensures
            r@ == self@,
    ;
}

impl Duplicate for String {
    fn duplicate(&self) -> (r: Self)
        ensures
            r@ == self@,
    {
        self.clone()
    }
}

/// One key and its value.
#[derive(Debug)]
pub struct MapEntry<V> {
    pub key: String,
    pub value: V,
}

/// A map from strings to `V`, held as entries with unique keys in the
/// order in which they were first inserted.
#[derive(Debug)]
pub struct KeyedMap<V> {
    entries: Vec<MapEntry<V>>,
}

/// A map from strings to strings.
pub type StringMap = KeyedMap<String>;

/// A map from strings to string maps.
pub type NestedMap = KeyedMap<KeyedMap<String>>;

impl<V> KeyedMap<V> {
    pub closed spec fn has_key_at(&self, k: Seq<char>, i: int) -> bool {
        0 <= i < self.entries@.len() && self.entries@[i].key@ == k
    }

    /// The keys, in insertion order.
    pub closed spec fn key_seq(&self) -> Seq<Seq<char>> {
        self.entries@.map_values(|e: MapEntry<V>| e.key@)
    }

    pub closed spec fn index_of(&self, k: Seq<char>) -> int {
        choose|i: int| self.has_key_at(k, i)
    }

    #[verifier::type_invariant]
    pub closed spec fn keys_unique(&self) -> bool {
        forall|i: int, j: int|
            0 <= i < self.entries@.len() && 0 <= j < self.entries@.len()
                && #[trigger] self.entries@[i].key@ == #[trigger] self.entries@[j].key@ ==> i == j
    }

    proof fn lemma_index_of(&self, k: Seq<char>, i: int)
        requires
            self.keys_unique(),
            self.has_key_at(k, i),
        ensures
            self.index_of(k) == i,
    {
        let j = self.index_of(k);
        assert(self.has_key_at(k, j));
    }
}

impl<V: View> View for KeyedMap<V> {
    type V = Map<Seq<char>, V::V>;

    closed spec fn view(&self) -> Map<Seq<char>, V::V> {
        Map::new(
            |k: Seq<char>| exists|i: int| self.has_key_at(k, i),
            |k: Seq<char>| self.entries@[self.index_of(k)].value@,
        )
    }
}

impl<V: Duplicate> KeyedMap<V> {
    /// An empty map.
    pub fn new() -> (r: Self)
        ensures
            r@ == Map::<Seq<char>, V::V>::empty(),
    {
        let r = KeyedMap { entries: Vec::new() };
        assert(r@ =~= Map::<Seq<char>, V::V>::empty());
        r
    }

    /// The number of keys.
    pub fn len(&self) -> (r: usize)
        ensures
            r == self@.dom().len(),
            self@.dom().finite(),
    {
        proof {
            use_type_invariant(self);
            self.lemma_dom_len();
        }
        self.entries.len()
    }

    proof fn lemma_dom_len(&self)
        requires
            self.keys_unique(),
        ensures
            self@.dom().finite(),
            self@.dom().len() == self.entries@.len(),
    {
        let ks = self.key_seq();
        assert(ks.no_duplicates()) by {
            assert forall|i: int, j: int|
                0 <= i < ks.len() && 0 <= j < ks.len() && i != j implies ks[i] != ks[j] by {
                assert(ks[i] == self.entries@[i].key@);
                assert(ks[j] == self.entries@[j].key@);
            }
        }
        assert(self@.dom() =~= ks.to_set()) by {
            assert forall|k: Seq<char>| self@.dom().contains(k) implies ks.to_set().contains(k) by {
                let i = choose|i: int| self.has_key_at(k, i);
                assert(ks[i] == k);
            }
            assert forall|k: Seq<char>| ks.to_set().contains(k) implies self@.dom().contains(k) by {
                let i = choose|i: int| 0 <= i < ks.len() && ks[i] == k;
                assert(self.has_key_at(k, i));
            }
        }
        ks.unique_seq_to_set();
    }

    /// Where the key is stored, if it is.
    fn find(&self, key: &str) -> (r: Option<usize>)
        ensures
            match r {
                Some(i) => self.has_key_at(key@, i as int),
                None => !self@.dom().contains(key@),
            },
    {
        let mut i: usize = 0;
        while i < self.entries.len()
            invariant
                i <= self.entries@.len(),
                forall|j: int| 0 <= j < i ==> self.entries@[j].key@ != key@,
            decreases self.entries@.len() - i,
        {
            if crate::text::str_eq(self.entries[i].key.as_str(), key) {
                return Some(i);
            }
            i = i + 1;
        }
        None
    }

    /// The value stored under `key`.
    pub fn get(&self, key: &str) -> (r: Option<&V>)
        ensures
            match r {
                Some(v) => self@.dom().contains(key@) && v@ == self@[key@],
                None => !self@.dom().contains(key@),
            },
    {
        proof {
            use_type_invariant(self);
        }
        match self.find(key) {
            Some(i) => {
                proof {
                    self.lemma_index_of(key@, i as int);
                }
                Some(&self.entries[i].value)
            },
            None => None,
        }
    }

    /// Stores `value` under `key`, replacing any earlier value.
    pub fn insert(&mut self, key: String, value: V)
        ensures
            final(self)@ == old(self)@.insert(key@, value@),
    {
        proof {
            use_type_invariant(&*self);
        }
        let ghost before = *self;
        match self.find(key.as_str()) {
            Some(i) => {
                let mut entries: Vec<MapEntry<V>> = Vec::new();
                std::mem::swap(&mut entries, &mut self.entries);
                entries.set(i, MapEntry { key, value });
                *self = KeyedMap { entries };
                proof {
                    assert forall|k: Seq<char>| #[trigger] self@.dom().contains(k) <==> before@.insert(key@, value@).dom().contains(k) by {
                        if k != key@ {
                            if exists|j: int| before.has_key_at(k, j) {
                                let j = choose|j: int| before.has_key_at(k, j);
                                assert(self.has_key_at(k, j));
                            }
                            if exists|j: int| self.has_key_at(k, j) {
                                let j = choose|j: int| self.has_key_at(k, j);
                                assert(before.has_key_at(k, j));
                            }
                        } else {
                            assert(self.has_key_at(k, i as int));
                        }
                    }
                    assert forall|k: Seq<char>| #[trigger] self@.dom().contains(k) implies self@[k] == before@.insert(key@, value@)[k] by {
                        if k != key@ {
                            let j = choose|j: int| self.has_key_at(k, j);
                            assert(before.has_key_at(k, j));
                            self.lemma_index_of(k, j);
                            before.lemma_index_of(k, j);
                        } else {
                            self.lemma_index_of(k, i as int);
                        }
                    }
                    assert(self@ =~= before@.insert(key@, value@));
                }
            },
            None => {
                let mut entries: Vec<MapEntry<V>> = Vec::new();
                std::mem::swap(&mut entries, &mut self.entries);
                proof {
                    assert forall|j: int| 0 <= j < before.entries@.len() implies before.entries@[j].key@ != key@ by {
                        if before.entries@[j].key@ == key@ {
                            assert(before.has_key_at(key@, j));
                        }
                    }
                }
                entries.push(MapEntry { key, value });
                *self = KeyedMap { entries };
                proof {
                    let n = before.entries@.len() as int;
                    assert(self.has_key_at(key@, n));
                    assert forall|k: Seq<char>| #[trigger] self@.dom().contains(k) <==> before@.insert(key@, value@).dom().contains(k) by {
                        if k != key@ {
                            if exists|j: int| before.has_key_at(k, j) {
                                let j = choose|j: int| before.has_key_at(k, j);
                                assert(self.has_key_at(k, j));
                            }
                            if exists|j: int| self.has_key_at(k, j) {
                                let j = choose|j: int| self.has_key_at(k, j);
                                assert(before.has_key_at(k, j));
                            }
                        }
                    }
                    assert forall|k: Seq<char>| #[trigger] self@.dom().contains(k) implies self@[k] == before@.insert(key@, value@)[k] by {
                        if k != key@ {
                            let j = choose|j: int| self.has_key_at(k, j);
                            assert(before.has_key_at(k, j));
                            self.lemma_index_of(k, j);
                            before.lemma_index_of(k, j);
                        } else {
                            self.lemma_index_of(k, n);
                        }
                    }
                    assert(self@ =~= before@.insert(key@, value@));
                }
            },
        }
    }

    /// This map with every entry of `over` stored on top: the union of the
    /// two, where `over` wins on a shared key.
    pub fn merged_with(&self, over: &Self) -> (r: Self)
        ensures
            r@ == self@.union_prefer_right(over@),
    {
        let mut r = self.duplicate();
        let mut i: usize = 0;
        proof {
            use_type_invariant(over);
            assert(over.entries@.subrange(0, 0).len() == 0);
        }
        while i < over.entries.len()
            invariant
                i <= over.entries@.len(),
                over.keys_unique(),
                forall|k: Seq<char>| #[trigger] r@.dom().contains(k) <==> (self@.dom().contains(k)
                    || exists|j: int| 0 <= j < i && over.has_key_at(k, j)),
                forall|k: Seq<char>| #[trigger] r@.dom().contains(k) ==> r@[k] == if exists|j: int|
                    0 <= j < i && over.has_key_at(k, j) {
                    over@[k]
                } else {
                    self@[k]
                },
            decreases over.entries@.len() - i,
        {
            let key = over.entries[i].key.clone();
            let value = over.entries[i].value.duplicate();
            proof {
                assert(over.has_key_at(key@, i as int));
                over.lemma_index_of(key@, i as int);
                assert(over@.dom().contains(key@));
            }
            r.insert(key, value);
            i = i + 1;
        }
        proof {
            assert forall|k: Seq<char>| (exists|j: int| 0 <= j < i && over.has_key_at(k, j))
                <==> over@.dom().contains(k) by {}
        }
        assert(r@ =~= self@.union_prefer_right(over@));
        r
    }

    /// The key of the `i`-th entry, in insertion order.
    pub fn key_at(&self, i: usize) -> (r: &String)
        requires
            i < self@.dom().len(),
        ensures
            self@.dom().contains(r@),
            r@ == self.key_seq()[i as int],
    {
        proof {
            use_type_invariant(self);
            self.lemma_dom_len();
            assert(self.has_key_at(self.entries@[i as int].key@, i as int));
        }
        &self.entries[i].key
    }

    /// The value of the `i`-th entry, in insertion order.
    pub fn value_at(&self, i: usize) -> (r: &V)
        requires
            i < self@.dom().len(),
        ensures
            self@.dom().contains(self.key_seq()[i as int]),
            r@ == self@[self.key_seq()[i as int]],
    {
        proof {
            use_type_invariant(self);
            self.lemma_dom_len();
            assert(self.has_key_at(self.entries@[i as int].key@, i as int));
            self.lemma_index_of(self.entries@[i as int].key@, i as int);
        }
        &self.entries[i].value
    }
}

impl<V: Duplicate> Duplicate for KeyedMap<V> {
    fn duplicate(&self) -> (r: Self)
        ensures
            r@ == self@,
    {
        proof {
            use_type_invariant(self);
        }
        let mut entries: Vec<MapEntry<V>> = Vec::new();
        let mut i: usize = 0;
        while i < self.entries.len()
            invariant
                i <= self.entries@.len(),
                entries@.len() == i,
                forall|j: int| 0 <= j < i ==> #[trigger] entries@[j].key@ == self.entries@[j].key@
                    && entries@[j].value@ == self.entries@[j].value@,
            decreases self.entries@.len() - i,
        {
            entries.push(MapEntry { key: self.entries[i].key.clone(), value: self.entries[i].value.duplicate() });
            i = i + 1;
        }
        let r = KeyedMap { entries };
        proof {
            assert forall|k: Seq<char>, j: int| r.has_key_at(k, j) <==> self.has_key_at(k, j) by {}
            assert forall|k: Seq<char>| #[trigger] r@.dom().contains(k) implies r@[k] == self@[k] by {
                let j = choose|j: int| r.has_key_at(k, j);
                r.lemma_index_of(k, j);
                self.lemma_index_of(k, j);
            }
            assert(r@ =~= self@);
        }
        r
    }
}

} // verus!
