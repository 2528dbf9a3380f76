//! A small string-keyed table with a map view.
//!
//! Bindings are kept in insertion order in two parallel vectors; no key occurs
//! twice. Lookups are linear, which suits the handful of live identifiers a
//! gateway process tracks between housekeeping passes.

use vstd::prelude::*;

verus! {

pub struct StringMap<V> {
    keys: Vec<String>,
    vals: Vec<V>,
}

impl<V> View for StringMap<V> {
    type V = Map<Seq<char>, V>;

    closed spec fn view(&self) -> Map<Seq<char>, V> {
        Map::new(
            |k: Seq<char>| exists|i: int| self.bound_at(k, i),
            |k: Seq<char>| self.val_seq()[choose|i: int| self.bound_at(k, i)],
        )
    }
}

impl<V> StringMap<V> {
    /// The keys in insertion order.
    pub closed spec fn key_seq(&self) -> Seq<Seq<char>> {
        Seq::new(self.keys@.len(), |i: int| self.keys@[i]@)
    }

    /// The values, each at the position of its key in [`Self::key_seq`].
    pub closed spec fn val_seq(&self) -> Seq<V> {
        self.vals@
    }

    /// `key` is the `i`-th key of the listing.
    pub open spec fn bound_at(&self, key: Seq<char>, i: int) -> bool {
        0 <= i < self.key_seq().len() && self.key_seq()[i] == key
    }

    /// Keys and values pair up and no key occurs twice.
    pub open spec fn wf(&self) -> bool {
        &&& self.key_seq().len() == self.val_seq().len()
        &&& forall|i: int, j: int|
            0 <= i < j < self.key_seq().len() ==> self.key_seq()[i] != self.key_seq()[j]
    }

    pub open spec fn spec_len(&self) -> nat {
        self.key_seq().len()
    }

    /// A key found in the listing is bound, in the view, to the value listed
    /// beside it.
    pub proof fn lemma_bound(&self, key: Seq<char>, i: int)
        requires
            self.wf(),
            self.bound_at(key, i),
        ensures
            self@.contains_key(key),
            self@[key] == self.val_seq()[i],
    {
        let c = choose|c: int| self.bound_at(key, c);
        assert(self.bound_at(key, c));
        if c < i {
            assert(self.key_seq()[c] != self.key_seq()[i]);
        } else if i < c {
            assert(self.key_seq()[i] != self.key_seq()[c]);
        }
    }

    /// The position of `key` in the listing, where it is bound.
    pub open spec fn index_of(&self, key: Seq<char>) -> int {
        choose|i: int| self.bound_at(key, i)
    }

    /// A key stands at one position only.
    pub proof fn lemma_index_of(&self, key: Seq<char>, i: int)
        requires
            self.wf(),
            self.bound_at(key, i),
        ensures
            self.index_of(key) == i,
    {
        let c = self.index_of(key);
        assert(self.bound_at(key, c));
        if c < i {
            assert(self.key_seq()[c] != self.key_seq()[i]);
        } else if i < c {
            assert(self.key_seq()[i] != self.key_seq()[c]);
        }
    }

    /// The table is its listing read as a map: a key is bound exactly when
    /// it stands in the listing, and then to the value listed beside it.
    pub proof fn lemma_listed(&self)
        requires
            self.wf(),
        ensures
            self.key_seq().len() == self.val_seq().len(),
            self@.dom().finite(),
            self@.dom().len() == self.spec_len(),
            forall|k: Seq<char>| #[trigger]
                self@.contains_key(k) ==> self.bound_at(k, self.index_of(k)) && self@[k]
                    == self.val_seq()[self.index_of(k)],
            forall|i: int|
                0 <= i < self.key_seq().len() ==> self@.contains_key(#[trigger] self.key_seq()[i])
                    && self@[self.key_seq()[i]] == self.val_seq()[i] && self.index_of(
                    self.key_seq()[i],
                ) == i,
    {
        self.lemma_len();
        assert forall|k: Seq<char>| #[trigger] self@.contains_key(k) implies self.bound_at(
            k,
            self.index_of(k),
        ) && self@[k] == self.val_seq()[self.index_of(k)] by {
            let i = choose|i: int| self.bound_at(k, i);
            self.lemma_bound(k, i);
        }
        assert forall|i: int| 0 <= i < self.key_seq().len() implies self@.contains_key(
            #[trigger] self.key_seq()[i],
        ) && self@[self.key_seq()[i]] == self.val_seq()[i] && self.index_of(self.key_seq()[i])
            == i by {
            let k = self.key_seq()[i];
            assert(self.bound_at(k, i));
            self.lemma_bound(k, i);
            self.lemma_index_of(k, i);
        }
    }

    /// The keys among the first `n` of the listing.
    pub open spec fn keys_upto(&self, n: int) -> Set<Seq<char>> {
        Set::new(|k: Seq<char>| exists|i: int| 0 <= i < n && self.bound_at(k, i))
    }

    proof fn lemma_keys_upto(&self, n: int)
        requires
            self.wf(),
            0 <= n <= self.key_seq().len(),
        ensures
            self.keys_upto(n).finite(),
            self.keys_upto(n).len() == n,
        decreases n,
    {
        if n == 0 {
            assert(self.keys_upto(0) =~= Set::<Seq<char>>::empty());
        } else {
            self.lemma_keys_upto(n - 1);
            let last = self.key_seq()[n - 1];
            assert(self.bound_at(last, n - 1));
            assert(!self.keys_upto(n - 1).contains(last)) by {
                if self.keys_upto(n - 1).contains(last) {
                    let i = choose|i: int| 0 <= i < n - 1 && self.bound_at(last, i);
                    assert(self.key_seq()[i] != self.key_seq()[n - 1]);
                }
            }
            assert(self.keys_upto(n) =~= self.keys_upto(n - 1).insert(last)) by {
                assert forall|k: Seq<char>| self.keys_upto(n).contains(k) implies self.keys_upto(
                    n - 1,
                ).insert(last).contains(k) by {
                    let i = choose|i: int| 0 <= i < n && self.bound_at(k, i);
                    if i < n - 1 {
                        assert(self.keys_upto(n - 1).contains(k));
                    }
                }
                assert forall|k: Seq<char>|
                    self.keys_upto(n - 1).insert(last).contains(k) implies self.keys_upto(
                    n,
                ).contains(k) by {
                    if k != last {
                        let i = choose|i: int| 0 <= i < n - 1 && self.bound_at(k, i);
                        assert(0 <= i < n && self.bound_at(k, i));
                    }
                }
            }
        }
    }

    /// The table binds as many keys as the listing is long.
    pub proof fn lemma_len(&self)
        requires
            self.wf(),
        ensures
            self@.dom().finite(),
            self@.dom().len() == self.spec_len(),
    {
        let n = self.key_seq().len() as int;
        self.lemma_keys_upto(n);
        assert(self@.dom() =~= self.keys_upto(n)) by {
            assert forall|k: Seq<char>| self@.dom().contains(k) implies self.keys_upto(
                n,
            ).contains(k) by {
                let i = choose|i: int| self.bound_at(k, i);
                assert(0 <= i < n && self.bound_at(k, i));
            }
        }
    }

    pub fn new() -> (m: Self)
        ensures
            m.wf(),
            m@ == Map::<Seq<char>, V>::empty(),
            m.spec_len() == 0,
    {
        let m = StringMap { keys: Vec::new(), vals: Vec::new() };
        assert(m@ =~= Map::<Seq<char>, V>::empty());
        m
    }

    pub fn len(&self) -> (n: usize)
        requires
            self.wf(),
        ensures
            n == self.spec_len(),
            n == self@.dom().len(),
    {
        proof {
            self.lemma_len();
        }
        self.keys.len()
    }

    /// The position of `key` in the listing, if it is bound.
    pub fn position(&self, key: &str) -> (r: Option<usize>)
        requires
            self.wf(),
        ensures
            match r {
                Some(i) => self.bound_at(key@, i as int),
                None => forall|i: int| !self.bound_at(key@, i),
            },
            r is Some <==> self@.contains_key(key@),
    {
        let owned = key.to_owned();
        let mut i: usize = 0;
        while i < self.keys.len()
            invariant
                self.wf(),
                owned@ == key@,
                i <= self.keys@.len(),
                forall|j: int| 0 <= j < i ==> !self.bound_at(key@, j),
            decreases self.keys.len() - i,
        {
            if self.keys[i] == owned {
                assert(self.bound_at(key@, i as int));
                return Some(i);
            }
            i += 1;
        }
        None
    }

    pub fn key_at(&self, i: usize) -> (k: &String)
        requires
            self.wf(),
            i < self.spec_len(),
        ensures
            k@ == self.key_seq()[i as int],
    {
        &self.keys[i]
    }

    pub fn value_at(&self, i: usize) -> (v: &V)
        requires
            self.wf(),
            i < self.spec_len(),
        ensures
            *v == self.val_seq()[i as int],
    {
        &self.vals[i]
    }

    pub fn get(&self, key: &str) -> (r: Option<&V>)
        requires
            self.wf(),
        ensures
            match r {
                Some(v) => self@.contains_key(key@) && *v == self@[key@],
                None => !self@.contains_key(key@),
            },
    {
        match self.position(key) {
            Some(i) => {
                proof {
                    self.lemma_bound(key@, i as int);
                }
                Some(&self.vals[i])
            },
            None => None,
        }
    }

    /// Binds `key` to `value`, replacing an earlier binding in place.
    pub fn insert(&mut self, key: String, value: V)
        requires
            old(self).wf(),
        ensures
            final(self).wf(),
            final(self)@ == old(self)@.insert(key@, value),
            final(self).spec_len() == old(self).spec_len() + (if old(self)@.contains_key(key@) {
                0int
            } else {
                1int
            }),
            old(self)@.contains_key(key@) ==> final(self).key_seq() == old(self).key_seq()
                && final(self).val_seq() == old(self).val_seq().update(
                old(self).index_of(key@),
                value,
            ),
            !old(self)@.contains_key(key@) ==> final(self).key_seq() == old(self).key_seq().push(
                key@,
            ) && final(self).val_seq() == old(self).val_seq().push(value),
    {
        let ghost before = *self;
        match self.position(key.as_str()) {
            Some(i) => {
                self.vals[i] = value;
                proof {
                    before.lemma_index_of(key@, i as int);
                    assert(self.key_seq() =~= before.key_seq());
                    assert forall|k: Seq<char>, j: int| self.bound_at(k, j) == before.bound_at(
                        k,
                        j,
                    ) by {}
                    let target = before@.insert(key@, value);
                    assert forall|k: Seq<char>| self@.contains_key(k) == target.contains_key(
                        k,
                    ) by {
                        if k == key@ {
                            assert(self.bound_at(k, i as int));
                        }
                        if self@.contains_key(k) {
                            let j = choose|j: int| self.bound_at(k, j);
                            assert(before.bound_at(k, j));
                        }
                        if before@.contains_key(k) {
                            let j = choose|j: int| before.bound_at(k, j);
                            assert(self.bound_at(k, j));
                        }
                    }
                    assert forall|k: Seq<char>| self@.contains_key(k) implies self@[k]
                        == target[k] by {
                        let j = choose|j: int| self.bound_at(k, j);
                        self.lemma_bound(k, j);
                        before.lemma_bound(k, j);
                    }
                    assert(self@ =~= target);
                }
            },
            None => {
                self.keys.push(key);
                self.vals.push(value);
                proof {
                    let n = before.key_seq().len() as int;
                    assert(self.key_seq() =~= before.key_seq().push(key@));
                    assert forall|a: int, b: int| 0 <= a < b < self.key_seq().len() implies self.key_seq()[a]
                        != self.key_seq()[b] by {
                        if b == n {
                            assert(!before.bound_at(key@, a));
                        }
                    }
                    let target = before@.insert(key@, value);
                    assert forall|k: Seq<char>| self@.contains_key(k) == target.contains_key(
                        k,
                    ) by {
                        if self@.contains_key(k) {
                            let j = choose|j: int| self.bound_at(k, j);
                            if j < n {
                                assert(before.bound_at(k, j));
                            }
                        }
                        if before@.contains_key(k) {
                            let j = choose|j: int| before.bound_at(k, j);
                            assert(self.bound_at(k, j));
                        }
                        if k == key@ {
                            assert(self.bound_at(k, n));
                        }
                    }
                    assert forall|k: Seq<char>| self@.contains_key(k) implies self@[k]
                        == target[k] by {
                        let j = choose|j: int| self.bound_at(k, j);
                        self.lemma_bound(k, j);
                        if j < n {
                            assert(before.bound_at(k, j));
                            before.lemma_bound(k, j);
                        }
                    }
                    assert(self@ =~= target);
                }
            },
        }
    }

    /// Unbinds `key`; the remaining bindings keep their order.
    pub fn remove(&mut self, key: &str)
        requires
            old(self).wf(),
        ensures
            final(self).wf(),
            final(self)@ == old(self)@.remove(key@),
            final(self).spec_len() == old(self).spec_len() - (if old(self)@.contains_key(key@) {
                1int
            } else {
                0int
            }),
            old(self)@.contains_key(key@) ==> final(self).key_seq() == old(self).key_seq().remove(
                old(self).index_of(key@),
            ) && final(self).val_seq() == old(self).val_seq().remove(old(self).index_of(key@)),
            !old(self)@.contains_key(key@) ==> final(self).key_seq() == old(self).key_seq()
                && final(self).val_seq() == old(self).val_seq(),
    {
        let ghost before = *self;
        match self.position(key) {
            Some(i) => {
                self.keys.remove(i);
                self.vals.remove(i);
                proof {
                    before.lemma_index_of(key@, i as int);
                    before.lemma_without(*self, i as int);
                }
            },
            None => {
                assert(self@ =~= before@.remove(key@));
            },
        }
    }

    /// Takes the most recently added binding out of the table.
    pub fn pop(&mut self) -> (r: Option<(String, V)>)
        requires
            old(self).wf(),
        ensures
            final(self).wf(),
            match r {
                Some((k, v)) => {
                    &&& old(self)@.contains_key(k@)
                    &&& old(self)@[k@] == v
                    &&& final(self)@ == old(self)@.remove(k@)
                    &&& final(self).spec_len() + 1 == old(self).spec_len()
                    &&& old(self).key_seq() == final(self).key_seq().push(k@)
                    &&& old(self).val_seq() == final(self).val_seq().push(v)
                },
                None => {
                    &&& old(self).spec_len() == 0
                    &&& old(self)@ == Map::<Seq<char>, V>::empty()
                    &&& *final(self) == *old(self)
                },
            },
    {
        let ghost before = *self;
        let n = self.keys.len();
        if n == 0 {
            assert(self@ =~= Map::<Seq<char>, V>::empty());
            return None;
        }
        let k = self.keys.remove(n - 1);
        let v = self.vals.remove(n - 1);
        proof {
            assert(before.bound_at(k@, n - 1));
            before.lemma_bound(k@, n - 1);
            before.lemma_without(*self, n - 1);
            assert(before.key_seq() =~= self.key_seq().push(k@));
            assert(before.val_seq() =~= self.val_seq().push(v));
        }
        Some((k, v))
    }

    /// Dropping the `i`-th binding of `self` gives `after`.
    proof fn lemma_without(&self, after: Self, i: int)
        requires
            self.wf(),
            0 <= i < self.key_seq().len(),
            after.keys@ == self.keys@.remove(i),
            after.vals@ == self.vals@.remove(i),
        ensures
            after.wf(),
            after@ == self@.remove(self.key_seq()[i]),
            after.spec_len() + 1 == self.spec_len(),
            self@.contains_key(self.key_seq()[i]),
            after.key_seq() == self.key_seq().remove(i),
            after.val_seq() == self.val_seq().remove(i),
    {
        let key = self.key_seq()[i];
        let shift = |j: int| if j < i { j } else { j + 1 };
        assert(after.key_seq() =~= self.key_seq().remove(i));
        assert forall|j: int| 0 <= j < after.key_seq().len() implies after.key_seq()[j]
            == self.key_seq()[shift(j)] && after.val_seq()[j] == self.val_seq()[shift(j)] by {}
        assert forall|a: int, b: int| 0 <= a < b < after.key_seq().len() implies after.key_seq()[a]
            != after.key_seq()[b] by {
            assert(self.key_seq()[shift(a)] != self.key_seq()[shift(b)]);
        }
        assert(self.bound_at(key, i));
        let target = self@.remove(key);
        assert forall|k: Seq<char>| after@.contains_key(k) == target.contains_key(k) by {
            if after@.contains_key(k) {
                let j = choose|j: int| after.bound_at(k, j);
                assert(self.bound_at(k, shift(j)));
                if k == key {
                    if shift(j) < i {
                        assert(self.key_seq()[shift(j)] != self.key_seq()[i]);
                    } else {
                        assert(self.key_seq()[i] != self.key_seq()[shift(j)]);
                    }
                }
            }
            if target.contains_key(k) {
                let j = choose|j: int| self.bound_at(k, j);
                assert(j != i);
                if j < i {
                    assert(after.bound_at(k, j));
                } else {
                    assert(after.bound_at(k, j - 1));
                }
            }
        }
        assert forall|k: Seq<char>| after@.contains_key(k) implies after@[k] == target[k] by {
            let j = choose|j: int| after.bound_at(k, j);
            after.lemma_bound(k, j);
            assert(self.bound_at(k, shift(j)));
            self.lemma_bound(k, shift(j));
        }
        assert(after@ =~= target);
    }
}

} // verus!
