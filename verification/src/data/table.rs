//! A small table of keys and values kept in a `Vec`, each key once, standing
//! for a map from what the keys denote to the values.
use crate::text::str_eq;
use vstd::prelude::*;

verus! {

/// A key of a [`Table`]: what it denotes, and how two keys are compared.
pub trait TableKey: Sized {
    /// What a key denotes; two keys that denote the same are the same key.
    type Denoted;

    /// What this key denotes.
    spec fn denoted(&self) -> Self::Denoted;

    /// Whether the two keys denote the same.
    fn same_key(&self, other: &Self) -> (r: bool)
        ensures
            r == (self.denoted() == other.denoted()),
    ;
}

impl TableKey for String {
    type Denoted = Seq<char>;

    open spec fn denoted(&self) -> Seq<char> {
        self@
    }

    fn same_key(&self, other: &Self) -> (r: bool) {
        str_eq(self.as_str(), other.as_str())
    }
}

/// The stored pairs, and the map that they stand for.
pub struct Table<K: TableKey, V> {
    entries: Vec<(K, V)>,
    model: Ghost<Map<K::Denoted, V>>,
}

impl<K: TableKey, V> View for Table<K, V> {
    type V = Map<K::Denoted, V>;

    closed spec fn view(&self) -> Map<K::Denoted, V> {
        self.model@
    }
}

impl<K: TableKey, V> Table<K, V> {
    /// The stored pairs, in order.
    pub closed spec fn pairs(&self) -> Seq<(K, V)> {
        self.entries@
    }

    /// The stored pairs hold exactly the map, each key once.
    pub closed spec fn wf(&self) -> bool {
        &&& forall|i: int|
            0 <= i < self.entries@.len() ==> #[trigger] self.model@.contains_key(
                self.entries@[i].0.denoted(),
            ) && self.model@[self.entries@[i].0.denoted()] == self.entries@[i].1
        &&& forall|k: K::Denoted|
            #[trigger] self.model@.contains_key(k) ==> exists|i: int|
                0 <= i < self.entries@.len() && #[trigger] self.entries@[i].0.denoted() == k
        &&& forall|i: int, j: int|
            0 <= i < j < self.entries@.len() ==> #[trigger] self.entries@[i].0.denoted()
                != #[trigger] self.entries@[j].0.denoted()
    }

    /// What a well-formed table's pairs say of its map.
    pub proof fn lemma_pairs(&self)
        requires
            self.wf(),
        ensures
            forall|i: int|
                0 <= i < self.pairs().len() ==> #[trigger] self@.contains_key(
                    self.pairs()[i].0.denoted(),
                ) && self@[self.pairs()[i].0.denoted()] == self.pairs()[i].1,
            forall|k: K::Denoted|
                #[trigger] self@.contains_key(k) ==> exists|i: int|
                    0 <= i < self.pairs().len() && #[trigger] self.pairs()[i].0.denoted() == k,
    {
        assert forall|i: int| 0 <= i < self.pairs().len() implies #[trigger] self@.contains_key(
            self.pairs()[i].0.denoted(),
        ) && self@[self.pairs()[i].0.denoted()] == self.pairs()[i].1 by {
            assert(self.pairs()[i] == self.entries@[i]);
            assert(self.model@.contains_key(self.entries@[i].0.denoted()));
        }
        assert forall|k: K::Denoted| #[trigger] self@.contains_key(k) implies exists|i: int|
            0 <= i < self.pairs().len() && #[trigger] self.pairs()[i].0.denoted() == k by {
            assert(self.model@.contains_key(k));
            let i = choose|i: int|
                0 <= i < self.entries@.len() && #[trigger] self.entries@[i].0.denoted() == k;
            assert(self.pairs()[i] == self.entries@[i]);
        }
    }

    /// The table of no key.
    pub fn empty() -> (r: Table<K, V>)
        ensures
            r.wf(),
            r@ == Map::<K::Denoted, V>::empty(),
    {
        Table { entries: Vec::new(), model: Ghost(Map::empty()) }
    }

    /// The stored pairs.
    pub fn pairs_ref(&self) -> (r: &Vec<(K, V)>)
        ensures
            r@ == self.pairs(),
    {
        &self.entries
    }

    /// The position of `key` among the stored pairs.
    fn position(&self, key: &K) -> (r: Option<usize>)
        requires
            self.wf(),
        ensures
            match r {
                Some(k) => k < self.entries@.len() && self.entries@[k as int].0.denoted()
                    == key.denoted(),
                None => !self@.contains_key(key.denoted()),
            },
    {
        let mut i: usize = 0;
        while i < self.entries.len()
            invariant
                i <= self.entries@.len(),
                forall|j: int| 0 <= j < i ==> #[trigger] self.entries@[j].0.denoted() != key.denoted(),
            decreases self.entries@.len() - i,
        {
            if self.entries[i].0.same_key(key) {
                return Some(i);
            }
            i = i + 1;
        }
        proof {
            if self@.contains_key(key.denoted()) {
                let k = choose|k: int|
                    0 <= k < self.entries@.len() && #[trigger] self.entries@[k].0.denoted()
                        == key.denoted();
                assert(self.entries@[k].0.denoted() != key.denoted());
            }
        }
        None
    }

    /// The value stored for `key`.
    pub fn get(&self, key: &K) -> (r: Option<&V>)
        requires
            self.wf(),
        ensures
            match r {
                Some(v) => self@.contains_key(key.denoted()) && *v == self@[key.denoted()],
                None => !self@.contains_key(key.denoted()),
            },
    {
        match self.position(key) {
            Some(k) => {
                assert(self.model@.contains_key(self.entries@[k as int].0.denoted()));
                Some(&self.entries[k].1)
            },
            None => None,
        }
    }

    /// Stores `value` for `key`, and gives what was stored for it before.
    pub fn set(&mut self, key: K, value: V) -> (r: Option<V>)
        requires
            old(self).wf(),
        ensures
            final(self).wf(),
            final(self)@ == old(self)@.insert(key.denoted(), value),
            r == if old(self)@.contains_key(key.denoted()) {
                Some(old(self)@[key.denoted()])
            } else {
                None::<V>
            },
    {
        let ghost ck = key.denoted();
        let ghost new_model = self.model@.insert(ck, value);
        let ghost old_storage = self.entries@;
        match self.position(&key) {
            Some(k) => {
                assert(self.model@.contains_key(old_storage[k as int].0.denoted()));
                let mut slot = (key, value);
                self.entries.set_and_swap(k, &mut slot);
                let (_, previous) = slot;
                self.model = Ghost(new_model);
                assert(self.entries@[k as int].0.denoted() == ck);
                assert forall|i: int| 0 <= i < self.entries@.len() implies #[trigger] self.model@.contains_key(
                    self.entries@[i].0.denoted(),
                ) && self.model@[self.entries@[i].0.denoted()] == self.entries@[i].1 by {
                    if i != k {
                        assert(self.entries@[i] == old_storage[i]);
                        assert(old_storage[i].0.denoted() != old_storage[k as int].0.denoted());
                    }
                }
                assert forall|kk: K::Denoted| #[trigger] self.model@.contains_key(kk) implies exists|
                    i: int,
                | 0 <= i < self.entries@.len() && #[trigger] self.entries@[i].0.denoted() == kk by {
                    if kk != ck {
                        let i = choose|i: int|
                            0 <= i < old_storage.len() && #[trigger] old_storage[i].0.denoted() == kk;
                        assert(self.entries@[i] == old_storage[i]);
                        assert(self.entries@[i].0.denoted() == kk);
                    }
                }
                assert forall|i: int, j: int|
                    0 <= i < j < self.entries@.len() implies #[trigger] self.entries@[i].0.denoted()
                    != #[trigger] self.entries@[j].0.denoted() by {
                    assert(old_storage[i].0.denoted() != old_storage[j].0.denoted());
                    if i != k {
                        assert(self.entries@[i] == old_storage[i]);
                    }
                    if j != k {
                        assert(self.entries@[j] == old_storage[j]);
                    }
                }
                Some(previous)
            },
            None => {
                self.entries.push((key, value));
                self.model = Ghost(new_model);
                assert(self.entries@[old_storage.len() as int].0.denoted() == ck);
                assert forall|i: int| 0 <= i < self.entries@.len() implies #[trigger] self.model@.contains_key(
                    self.entries@[i].0.denoted(),
                ) && self.model@[self.entries@[i].0.denoted()] == self.entries@[i].1 by {
                    if i < old_storage.len() {
                        assert(self.entries@[i] == old_storage[i]);
                        assert(old_storage[i].0.denoted() != ck);
                    }
                }
                assert forall|kk: K::Denoted| #[trigger] self.model@.contains_key(kk) implies exists|
                    i: int,
                | 0 <= i < self.entries@.len() && #[trigger] self.entries@[i].0.denoted() == kk by {
                    if kk != ck {
                        let i = choose|i: int|
                            0 <= i < old_storage.len() && #[trigger] old_storage[i].0.denoted() == kk;
                        assert(self.entries@[i] == old_storage[i]);
                        assert(self.entries@[i].0.denoted() == kk);
                    }
                }
                assert forall|i: int, j: int|
                    0 <= i < j < self.entries@.len() implies #[trigger] self.entries@[i].0.denoted()
                    != #[trigger] self.entries@[j].0.denoted() by {
                    assert(old_storage[i] == self.entries@[i]);
                    if j < old_storage.len() {
                        assert(old_storage[j] == self.entries@[j]);
                        assert(old_storage[i].0.denoted() != old_storage[j].0.denoted());
                    }
                }
                None
            },
        }
    }

    /// Forgets `key`.
    pub fn remove(&mut self, key: &K)
        requires
            old(self).wf(),
        ensures
            final(self).wf(),
            final(self)@ == old(self)@.remove(key.denoted()),
    {
        let ghost new_model = self.model@.remove(key.denoted());
        let ghost old_model = self.model@;
        match self.position(key) {
            Some(k) => {
                let ghost old_storage = self.entries@;
                self.entries.remove(k);
                self.model = Ghost(new_model);
                assert forall|i: int| 0 <= i < self.entries@.len() implies #[trigger] self.model@.contains_key(
                    self.entries@[i].0.denoted(),
                ) && self.model@[self.entries@[i].0.denoted()] == self.entries@[i].1 by {
                    let oi = if i < k { i } else { i + 1 };
                    assert(self.entries@[i] == old_storage[oi]);
                    assert(old_storage[oi].0.denoted() != old_storage[k as int].0.denoted());
                    assert(old_model.contains_key(old_storage[oi].0.denoted()));
                }
                assert forall|kk: K::Denoted| #[trigger] self.model@.contains_key(kk) implies exists|
                    i: int,
                | 0 <= i < self.entries@.len() && #[trigger] self.entries@[i].0.denoted() == kk by {
                    let i = choose|i: int|
                        0 <= i < old_storage.len() && #[trigger] old_storage[i].0.denoted() == kk;
                    if i < k {
                        assert(self.entries@[i] == old_storage[i]);
                        assert(self.entries@[i].0.denoted() == kk);
                    } else {
                        assert(self.entries@[i - 1] == old_storage[i]);
                        assert(self.entries@[i - 1].0.denoted() == kk);
                    }
                }
                assert forall|i: int, j: int|
                    0 <= i < j < self.entries@.len() implies #[trigger] self.entries@[i].0.denoted()
                    != #[trigger] self.entries@[j].0.denoted() by {
                    let oi = if i < k { i } else { i + 1 };
                    let oj = if j < k { j } else { j + 1 };
                    assert(self.entries@[i] == old_storage[oi]);
                    assert(self.entries@[j] == old_storage[oj]);
                    assert(old_storage[oi].0.denoted() != old_storage[oj].0.denoted());
                }
            },
            None => {
                assert(self.model@.remove(key.denoted()) =~= self.model@);
            },
        }
    }
}

} // verus!
