//! Tables keyed by text, which remember the order in which keys came.

use vstd::prelude::*;

use crate::text::{eq, strs};

verus! {

/// A table from texts to values. No key occurs twice, and a key keeps its place when
/// its value changes.
pub struct Table<T> {
    keys: Vec<String>,
    vals: Vec<T>,
}

impl<T> Table<T> {
    /// The keys in the order in which they came.
    pub closed spec fn order(self) -> Seq<Seq<char>> {
        strs(self.keys@)
    }

    /// Whether each key has one value and no key occurs twice.
    pub closed spec fn wf(self) -> bool {
        &&& self.keys.len() == self.vals.len()
        &&& forall|i: int, j: int|
            0 <= i < j < self.keys.len() ==> (#[trigger] self.keys@[i])@ != (
            #[trigger] self.keys@[j])@
    }

    /// Whether `i` is the place of `k`.
    spec fn is_at(self, k: Seq<char>, i: int) -> bool {
        0 <= i < self.keys.len() && self.keys@[i]@ == k
    }
}

impl<T> View for Table<T> {
    type V = Map<Seq<char>, T>;

    closed spec fn view(&self) -> Map<Seq<char>, T> {
        Map::new(
            |k: Seq<char>| exists|i: int| self.is_at(k, i),
            |k: Seq<char>| self.vals@[choose|i: int| self.is_at(k, i)],
        )
    }
}

impl<T> Table<T> {
    proof fn lemma_at(self, i: int)
        requires
            self.wf(),
            0 <= i < self.keys.len(),
        ensures
            self@.dom().contains(self.keys@[i]@),
            self@[self.keys@[i]@] == self.vals@[i],
    {
        let k = self.keys@[i]@;
        assert(self.is_at(k, i));
        let j = choose|j: int| self.is_at(k, j);
        assert(self.is_at(k, j));
        assert(i == j);
    }

    /// The keys of the table are those of its order, which holds none twice.
    pub proof fn lemma_order(self)
        requires
            self.wf(),
        ensures
            self.order().no_duplicates(),
            forall|k: Seq<char>| self.order().contains(k) <==> self@.dom().contains(k),
    {
        assert forall|i: int, j: int| 0 <= i < self.order().len() && 0 <= j < self.order().len() && i
            != j implies self.order()[i] != self.order()[j] by {
            assert(self.order()[i] == self.keys@[i]@);
            assert(self.order()[j] == self.keys@[j]@);
        }
        assert forall|k: Seq<char>| self.order().contains(k) <==> self@.dom().contains(k) by {
            if self.order().contains(k) {
                let i = choose|i: int| 0 <= i < self.order().len() && self.order()[i] == k;
                assert(self.is_at(k, i));
            }
            if self@.dom().contains(k) {
                let i = choose|i: int| self.is_at(k, i);
                assert(self.order()[i] == k);
            }
        }
    }

    /// There are as many keys as the order is long.
    pub proof fn lemma_count(self)
        requires
            self.wf(),
        ensures
            self.order().len() == self@.dom().len(),
    {
        self.lemma_order();
        self.order().unique_seq_to_set();
        assert(self.order().to_set() =~= self@.dom());
    }

    /// An empty table.
    pub fn new() -> (r: Table<T>)
        ensures
            r.wf(),
            r@ == Map::<Seq<char>, T>::empty(),
            r.order() == Seq::<Seq<char>>::empty(),
    {
        let r = Table { keys: Vec::new(), vals: Vec::new() };
        assert(r@ =~= Map::<Seq<char>, T>::empty());
        assert(r.order() =~= Seq::<Seq<char>>::empty());
        r
    }

    /// How many keys there are.
    pub fn len(&self) -> (r: usize)
        ensures
            r == self.order().len(),
    {
        self.keys.len()
    }

    fn find(&self, k: &str) -> (r: Option<usize>)
        requires
            self.wf(),
        ensures
            match r {
                Some(i) => i < self.keys.len() && self.keys@[i as int]@ == k@,
                None => forall|i: int| 0 <= i < self.keys.len() ==> (#[trigger] self.keys@[i])@ != k@,
            },
    {
        let mut i: usize = 0;
        while i < self.keys.len()
            invariant
                i <= self.keys.len(),
                forall|j: int| 0 <= j < i ==> (#[trigger] self.keys@[j])@ != k@,
            decreases self.keys.len() - i,
        {
            if eq(self.keys[i].as_str(), k) {
                return Some(i);
            }
            i = i + 1;
        }
        None
    }

    /// Whether the table has a key.
    pub fn contains_key(&self, k: &str) -> (r: bool)
        requires
            self.wf(),
        ensures
            r == self@.dom().contains(k@),
    {
        match self.find(k) {
            Some(i) => {
                assert(self.is_at(k@, i as int));
                true
            },
            None => {
                assert(forall|i: int| !self.is_at(k@, i));
                false
            },
        }
    }

    /// The value of a key.
    pub fn get(&self, k: &str) -> (r: Option<&T>)
        requires
            self.wf(),
        ensures
            match r {
                Some(v) => self@.dom().contains(k@) && self@[k@] == *v,
                None => !self@.dom().contains(k@),
            },
    {
        match self.find(k) {
            Some(i) => {
                proof {
                    self.lemma_at(i as int);
                }
                Some(&self.vals[i])
            },
            None => {
                assert(forall|i: int| !self.is_at(k@, i));
                None
            },
        }
    }

    /// The key at a place of the order.
    pub fn key_at(&self, i: usize) -> (r: &String)
        requires
            i < self.order().len(),
        ensures
            r@ == self.order()[i as int],
    {
        &self.keys[i]
    }

    /// The value of the key at a place of the order.
    pub fn val_at(&self, i: usize) -> (r: &T)
        requires
            self.wf(),
            i < self.order().len(),
        ensures
            self@.dom().contains(self.order()[i as int]),
            *r == self@[self.order()[i as int]],
    {
        proof {
            self.lemma_at(i as int);
        }
        &self.vals[i]
    }

    /// Gives a key a value.
    pub fn insert(&mut self, k: &str, v: T)
        requires
            old(self).wf(),
        ensures
            final(self).wf(),
            final(self)@ == old(self)@.insert(k@, v),
            final(self).order() == (if old(self)@.dom().contains(k@) {
                old(self).order()
            } else {
                old(self).order().push(k@)
            }),
    {
        let ghost before = *self;
        match self.find(k) {
            Some(i) => {
                proof {
                    before.lemma_at(i as int);
                }
                self.vals.set(i, v);
                proof {
                    assert forall|k2: Seq<char>| self@.dom().contains(k2) <==> before@.insert(
                        k@,
                        v,
                    ).dom().contains(k2) by {
                        if before@.dom().contains(k2) {
                            let j = choose|j: int| before.is_at(k2, j);
                            assert(self.is_at(k2, j));
                        }
                        if self@.dom().contains(k2) {
                            let j = choose|j: int| self.is_at(k2, j);
                            assert(before.is_at(k2, j));
                        }
                    }
                    assert forall|k2: Seq<char>| self@.dom().contains(k2) implies self@[k2]
                        == before@.insert(k@, v)[k2] by {
                        let j = choose|j: int| self.is_at(k2, j);
                        self.lemma_at(j);
                        before.lemma_at(j);
                    }
                    assert(self@ =~= before@.insert(k@, v));
                }
            },
            None => {
                let ghost n = self.keys.len() as int;
                self.keys.push(k.to_owned());
                self.vals.push(v);
                proof {
                    assert(forall|i: int| !before.is_at(k@, i));
                    assert(self.order() =~= before.order().push(k@));
                    assert forall|k2: Seq<char>| self@.dom().contains(k2) <==> before@.insert(
                        k@,
                        v,
                    ).dom().contains(k2) by {
                        if before@.dom().contains(k2) {
                            let j = choose|j: int| before.is_at(k2, j);
                            assert(self.is_at(k2, j));
                        }
                        if k2 == k@ {
                            assert(self.is_at(k2, n));
                        }
                        if self@.dom().contains(k2) {
                            let j = choose|j: int| self.is_at(k2, j);
                            if j < n {
                                assert(before.is_at(k2, j));
                            }
                        }
                    }
                    assert forall|k2: Seq<char>| self@.dom().contains(k2) implies self@[k2]
                        == before@.insert(k@, v)[k2] by {
                        let j = choose|j: int| self.is_at(k2, j);
                        self.lemma_at(j);
                        if j < n {
                            before.lemma_at(j);
                        }
                    }
                    assert(self@ =~= before@.insert(k@, v));
                }
            },
        }
    }

    /// Takes a key out.
    pub fn remove(&mut self, k: &str) -> (r: Option<T>)
        requires
            old(self).wf(),
        ensures
            final(self).wf(),
            final(self)@ == old(self)@.remove(k@),
            match r {
                Some(v) => old(self)@.dom().contains(k@) && old(self)@[k@] == v,
                None => !old(self)@.dom().contains(k@),
            },
            final(self).order() == (if old(self)@.dom().contains(k@) {
                old(self).order().remove(old(self).order().index_of(k@))
            } else {
                old(self).order()
            }),
    {
        let ghost before = *self;
        match self.find(k) {
            Some(i) => {
                proof {
                    before.lemma_at(i as int);
                }
                let _ = self.keys.remove(i);
                let v = self.vals.remove(i);
                proof {
                    assert forall|k2: Seq<char>| self@.dom().contains(k2) <==> before@.remove(
                        k@,
                    ).dom().contains(k2) by {
                        if before@.dom().contains(k2) && k2 != k@ {
                            let j = choose|j: int| before.is_at(k2, j);
                            assert(self.is_at(k2, if j < i { j } else { j - 1 }));
                        }
                        if self@.dom().contains(k2) {
                            let j = choose|j: int| self.is_at(k2, j);
                            let b = if j < i { j } else { j + 1 };
                            assert(before.is_at(k2, b));
                            assert(before.keys@[b]@ != before.keys@[i as int]@);
                        }
                    }
                    assert forall|k2: Seq<char>| self@.dom().contains(k2) implies self@[k2]
                        == before@.remove(k@)[k2] by {
                        let j = choose|j: int| self.is_at(k2, j);
                        self.lemma_at(j);
                        before.lemma_at(if j < i { j } else { j + 1 });
                    }
                    assert(self@ =~= before@.remove(k@));
                    before.lemma_order();
                    assert(before.order()[i as int] == k@);
                    assert(before.order().index_of(k@) == i);
                    assert(self.order() =~= before.order().remove(i as int));
                }
                Some(v)
            },
            None => {
                proof {
                    assert(forall|i: int| !before.is_at(k@, i));
                    assert(self@ =~= before@.remove(k@));
                }
                None
            },
        }
    }
}

impl<T: Copy> Table<T> {
    /// A copy of the table.
    pub fn copy(&self) -> (r: Table<T>)
        requires
            self.wf(),
        ensures
            r.wf(),
            r@ == self@,
            r.order() == self.order(),
    {
        let mut keys: Vec<String> = Vec::new();
        let mut vals: Vec<T> = Vec::new();
        let mut i: usize = 0;
        while i < self.keys.len()
            invariant
                i <= self.keys.len(),
                self.wf(),
                keys.len() == i,
                vals.len() == i,
                forall|j: int| 0 <= j < i ==> (#[trigger] keys@[j])@ == self.keys@[j]@,
                forall|j: int| 0 <= j < i ==> #[trigger] vals@[j] == self.vals@[j],
            decreases self.keys.len() - i,
        {
            keys.push(self.keys[i].clone());
            vals.push(self.vals[i]);
            i = i + 1;
        }
        let r = Table { keys, vals };
        proof {
            assert(r.vals@ =~= self.vals@);
            assert(r.order() =~= self.order());
            assert forall|k: Seq<char>, j: int| r.is_at(k, j) == self.is_at(k, j) by {}
            assert forall|k: Seq<char>| r@.dom().contains(k) <==> self@.dom().contains(k) by {
                if r@.dom().contains(k) {
                    let j = choose|j: int| r.is_at(k, j);
                    assert(self.is_at(k, j));
                }
                if self@.dom().contains(k) {
                    let j = choose|j: int| self.is_at(k, j);
                    assert(r.is_at(k, j));
                }
            }
            assert forall|k: Seq<char>| r@.dom().contains(k) implies r@[k] == self@[k] by {
                let j = choose|j: int| r.is_at(k, j);
                r.lemma_at(j);
                self.lemma_at(j);
            }
            assert(r@ =~= self@);
        }
        r
    }
}

} // verus!
