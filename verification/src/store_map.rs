//! The persistent map layer: a key→value table with string keys, one per
//! storage region. Keys are unique, entries keep first-insertion order, and
//! an insert with an existing key overwrites the value in place. Its view
//! is a mathematical map from key characters to value views.

use vstd::prelude::*;
use vstd::pervasive::VecAdditionalExecFns;

verus! {

/// With no duplicate keys, `index_of` finds exactly the position a key
/// stands at.
pub proof fn lemma_index_of_unique(s: Seq<Seq<char>>, i: int)
    requires
        s.no_duplicates(),
        0 <= i < s.len(),
    ensures
        s.index_of(s[i]) == i,
{
    let k = s[i];
    assert(s.contains(k));
    let j = s.index_of(k);
    assert(0 <= j < s.len() && s[j] == k);
}

/// A key→value table, the storage shape both primary record tables and
/// secondary index tables share.
pub struct StoreMap<V> {
    pub keys: Vec<String>,
    pub vals: Vec<V>,
}

impl<V: View> View for StoreMap<V> {
    type V = Map<Seq<char>, V::V>;

    open spec fn view(&self) -> Map<Seq<char>, V::V> {
        Map::new(
            |k: Seq<char>| self.key_seq().contains(k),
            |k: Seq<char>| self.val_seq()[self.key_seq().index_of(k)],
        )
    }
}

impl<V: View> StoreMap<V> {
    /// The keys, in first-insertion order.
    pub open spec fn key_seq(&self) -> Seq<Seq<char>> {
        self.keys@.map_values(|k: String| k@)
    }

    /// The stored values, in first-insertion order of their keys.
    pub open spec fn spec_vals(&self) -> Seq<V> {
        self.vals@
    }

    /// The value views, in first-insertion order of their keys.
    pub open spec fn val_seq(&self) -> Seq<V::V> {
        self.vals@.map_values(|v: V| v@)
    }

    /// Internal shape: one value per key, and no key twice.
    pub open spec fn inv(&self) -> bool {
        &&& self.keys@.len() == self.vals@.len()
        &&& self.key_seq().no_duplicates()
    }

    /// The table as seen through its view, entry by entry.
    pub proof fn lemma_entry(&self, i: int)
        requires
            self.inv(),
            0 <= i < self.key_seq().len(),
        ensures
            self@.contains_key(self.key_seq()[i]),
            self@[self.key_seq()[i]] == self.val_seq()[i],
    {
        let k = self.key_seq()[i];
        assert(self.key_seq().contains(k));
        lemma_index_of_unique(self.key_seq(), i);
    }

    /// An empty table.
    pub fn new() -> (r: Self)
        ensures
            r.inv(),
            r@ == Map::<Seq<char>, V::V>::empty(),
            r.key_seq() == Seq::<Seq<char>>::empty(),
            r.val_seq() == Seq::<V::V>::empty(),
    {
        let r = StoreMap { keys: Vec::new(), vals: Vec::new() };
        proof {
            assert(r.key_seq() =~= Seq::<Seq<char>>::empty());
            assert(r.val_seq() =~= Seq::<V::V>::empty());
            assert(r@ =~= Map::<Seq<char>, V::V>::empty());
        }
        r
    }

    /// The number of entries.
    pub fn len(&self) -> (r: usize)
        ensures
            r == self.key_seq().len(),
    {
        self.keys.len()
    }

    /// The position `k` stands at, if it is a key of the table.
    fn find_index(&self, k: &String) -> (r: Option<usize>)
        ensures
            match r {
                Some(i) => i < self.keys@.len() && self.key_seq()[i as int] == k@,
                None => !self.key_seq().contains(k@),
            },
    {
        let mut i: usize = 0;
        while i < self.keys.len()
            invariant
                i <= self.keys.len(),
                forall|j: int| 0 <= j < i ==> self.key_seq()[j] != k@,
            decreases self.keys.len() - i,
        {
            if self.keys[i] == *k {
                return Some(i);
            }
            i += 1;
        }
        None
    }

    /// Whether `k` is a key of the table.
    pub fn contains_key(&self, k: &String) -> (r: bool)
        requires
            self.inv(),
        ensures
            r == self@.contains_key(k@),
    {
        match self.find_index(k) {
            Some(_) => true,
            None => false,
        }
    }

    /// The value stored under `k`, if any.
    pub fn get<'a>(&'a self, k: &String) -> (r: Option<&'a V>)
        requires
            self.inv(),
        ensures
            match r {
                Some(v) => self@.contains_key(k@) && v@ == self@[k@],
                None => !self@.contains_key(k@),
            },
    {
        match self.find_index(k) {
            Some(i) => {
                proof {
                    self.lemma_entry(i as int);
                }
                Some(&self.vals[i])
            },
            None => None,
        }
    }

    /// Store `v` under `k`: overwrite in place when `k` is already a key,
    /// append a fresh entry otherwise.
    pub fn insert(&mut self, k: String, v: V)
        requires
            old(self).inv(),
        ensures
            final(self).inv(),
            final(self)@ == old(self)@.insert(k@, v@),
            final(self).key_seq() == (if old(self)@.contains_key(k@) {
                old(self).key_seq()
            } else {
                old(self).key_seq().push(k@)
            }),
            final(self).val_seq() == (if old(self)@.contains_key(k@) {
                old(self).val_seq().update(old(self).key_seq().index_of(k@), v@)
            } else {
                old(self).val_seq().push(v@)
            }),
    {
        match self.find_index(&k) {
            Some(i) => {
                self.vals.set(i, v);
                proof {
                    lemma_index_of_unique(old(self).key_seq(), i as int);
                    assert(self.key_seq() =~= old(self).key_seq());
                    assert(self.val_seq() =~= old(self).val_seq().update(i as int, v@));
                    assert forall|x: Seq<char>|
                        self@.contains_key(x) == old(self)@.insert(k@, v@).contains_key(x) && (
                        self@.contains_key(x) ==> self@[x] == old(self)@.insert(k@, v@)[x]) by {
                        if self.key_seq().contains(x) {
                            let j = choose|j: int|
                                0 <= j < self.key_seq().len() && self.key_seq()[j] == x;
                            lemma_index_of_unique(self.key_seq(), j);
                        }
                    }
                    assert(self@ =~= old(self)@.insert(k@, v@));
                }
            },
            None => {
                let ghost old_keys = self.key_seq();
                let ghost old_vals = self.val_seq();
                self.keys.push(k);
                self.vals.push(v);
                proof {
                    let n = old_keys.len() as int;
                    assert(self.key_seq() =~= old_keys.push(k@));
                    assert(self.val_seq() =~= old_vals.push(v@));
                    let new_keys = self.key_seq();
                    assert forall|i: int, j: int|
                        0 <= i < new_keys.len() && 0 <= j < new_keys.len() && i
                            != j implies new_keys[i] != new_keys[j] by {
                        if i < n && j < n {
                            assert(new_keys[i] == old_keys[i]);
                            assert(new_keys[j] == old_keys[j]);
                        } else if i == n && j < n {
                            assert(old_keys.contains(old_keys[j]));
                        } else if j == n && i < n {
                            assert(old_keys.contains(old_keys[i]));
                        }
                    }
                    assert(new_keys.no_duplicates());
                    let target = old(self)@.insert(k@, v@);
                    assert forall|x: Seq<char>| #[trigger] self@.dom().contains(x)
                        == target.dom().contains(x) by {
                        if new_keys.contains(x) {
                            if x != k@ {
                                let j = choose|j: int|
                                    0 <= j < new_keys.len() && new_keys[j] == x;
                                assert(new_keys[n] == k@);
                                assert(j < n);
                                assert(old_keys[j] == x);
                                assert(old(self).key_seq().contains(x));
                            }
                        } else {
                            assert(new_keys[n] == k@);
                            assert(x != k@);
                            if old_keys.contains(x) {
                                let j = choose|j: int| 0 <= j < old_keys.len() && old_keys[j] == x;
                                assert(new_keys[j] == x);
                                assert(new_keys.contains(x));
                            }
                        }
                    }
                    assert(self@.dom() =~= target.dom());
                    assert forall|x: Seq<char>| #[trigger] self@.dom().contains(
                        x,
                    ) implies self@[x] == target[x] by {
                        let j = choose|j: int| 0 <= j < new_keys.len() && new_keys[j] == x;
                        lemma_index_of_unique(new_keys, j);
                        if x == k@ {
                            if j < n {
                                assert(old_keys[j] == x);
                                assert(old_keys.contains(k@));
                            }
                            assert(j == n);
                            assert(self.val_seq()[j] == v@);
                        } else {
                            assert(new_keys[n] == k@);
                            assert(j < n);
                            assert(old_keys[j] == x);
                            assert(old(self).key_seq().contains(x));
                            lemma_index_of_unique(old_keys, j);
                            assert(self.val_seq()[j] == old_vals[j]);
                        }
                    }
                    assert(self@ =~= target);
                }
            },
        }
    }

    /// All stored values, in first-insertion order of their keys.
    pub fn values<'a>(&'a self) -> (r: &'a Vec<V>)
        ensures
            r@ == self.spec_vals(),
            r@.map_values(|v: V| v@) == self.val_seq(),
    {
        &self.vals
    }
}

} // verus!
