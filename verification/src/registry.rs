//! Values kept under names, each name once.

use vstd::prelude::*;
use crate::text::owned;

verus! {

/// Values under names. No name occurs twice.
pub struct Registry<G> {
    keys: Vec<String>,
    values: Vec<G>,
}

/// `k` is the name at `i`.
spec fn named(keys: Seq<String>, i: int, k: Seq<char>) -> bool {
    0 <= i < keys.len() && keys[i]@ == k
}

impl<G> View for Registry<G> {
    type V = Map<Seq<char>, G>;

    closed spec fn view(&self) -> Map<Seq<char>, G> {
        Map::new(
            |k: Seq<char>| exists|i: int| named(self.keys@, i, k),
            |k: Seq<char>| self.values@[choose|i: int| named(self.keys@, i, k)],
        )
    }
}

impl<G> Registry<G> {
    /// Each name has a value, and no name occurs twice.
    pub closed spec fn wf(&self) -> bool {
        &&& self.keys@.len() == self.values@.len()
        &&& forall|i: int, j: int|
            #![trigger self.keys@[i], self.keys@[j]]
            0 <= i < j < self.keys@.len() ==> self.keys@[i]@ != self.keys@[j]@
    }

    /// The number of values.
    pub closed spec fn count(&self) -> nat {
        self.keys@.len()
    }

    proof fn lemma_at(&self, i: int)
        requires
            self.wf(),
            0 <= i < self.keys@.len(),
        ensures
            self@.dom().contains(self.keys@[i]@),
            self@[self.keys@[i]@] == self.values@[i],
    {
        let k = self.keys@[i]@;
        assert(named(self.keys@, i, k));
        let c = choose|j: int| named(self.keys@, j, k);
        assert(named(self.keys@, c, k));
        if c < i {
            assert(self.keys@[c]@ != self.keys@[i]@);
        } else if i < c {
            assert(self.keys@[i]@ != self.keys@[c]@);
        }
    }

    proof fn lemma_absent(&self, k: Seq<char>)
        requires
            forall|i: int| 0 <= i < self.keys@.len() ==> (#[trigger] self.keys@[i])@ != k,
        ensures
            !self@.dom().contains(k),
    {
        if exists|i: int| named(self.keys@, i, k) {
            let i = choose|i: int| named(self.keys@, i, k);
            assert(self.keys@[i]@ != k);
        }
    }

    /// There are as many values as names.
    pub proof fn lemma_count(&self)
        requires
            self.wf(),
        ensures
            self@.dom().finite(),
            self@.dom().len() == self.count(),
    {
        let names = Seq::new(self.keys@.len(), |i: int| self.keys@[i]@);
        assert forall|i: int, j: int|
            0 <= i < names.len() && 0 <= j < names.len() && i != j implies names[i] != names[j] by {
            if i < j {
                assert(self.keys@[i]@ != self.keys@[j]@);
            } else {
                assert(self.keys@[j]@ != self.keys@[i]@);
            }
        }
        names.unique_seq_to_set();
        assert(names.to_set() =~= self@.dom()) by {
            assert forall|k: Seq<char>| names.to_set().contains(k) <==> self@.dom().contains(k) by {
                if names.contains(k) {
                    let i = choose|i: int| 0 <= i < names.len() && names[i] == k;
                    self.lemma_at(i);
                }
                if self@.dom().contains(k) {
                    let i = choose|i: int| named(self.keys@, i, k);
                    assert(names[i] == k);
                }
            }
        }
    }

    pub fn new() -> (r: Self)
        ensures
            r.wf(),
            r@ == Map::<Seq<char>, G>::empty(),
            r.count() == 0,
    {
        let r = Registry { keys: Vec::new(), values: Vec::new() };
        assert(r@ =~= Map::<Seq<char>, G>::empty()) by {
            assert forall|k: Seq<char>| !r@.dom().contains(k) by {
                r.lemma_absent(k);
            }
        }
        r
    }

    pub fn len(&self) -> (r: usize)
        ensures
            r == self.count(),
    {
        self.keys.len()
    }

    /// The place of a name.
    fn find(&self, key: &str) -> (r: Option<usize>)
        requires
            self.wf(),
        ensures
            match r {
                Some(i) => i < self.keys@.len() && self.keys@[i as int]@ == key@
                    && self@.dom().contains(key@) && self@[key@] == self.values@[i as int],
                None => !self@.dom().contains(key@) && forall|i: int|
                    0 <= i < self.keys@.len() ==> (#[trigger] self.keys@[i])@ != key@,
            },
    {
        let wanted = owned(key);
        for i in 0..self.keys.len()
            invariant
                self.wf(),
                wanted@ == key@,
                forall|j: int| 0 <= j < i ==> (#[trigger] self.keys@[j])@ != key@,
        {
            if self.keys[i] == wanted {
                proof {
                    self.lemma_at(i as int);
                }
                return Some(i);
            }
        }
        proof {
            self.lemma_absent(key@);
        }
        None
    }

    pub fn contains(&self, key: &str) -> (r: bool)
        requires
            self.wf(),
        ensures
            r == self@.dom().contains(key@),
    {
        self.find(key).is_some()
    }

    pub fn get(&self, key: &str) -> (r: Option<&G>)
        requires
            self.wf(),
        ensures
            match r {
                Some(value) => self@.dom().contains(key@) && *value == self@[key@],
                None => !self@.dom().contains(key@),
            },
    {
        match self.find(key) {
            Some(i) => Some(&self.values[i]),
            None => None,
        }
    }

    /// Removes a value and returns it.
    pub fn take(&mut self, key: &str) -> (r: Option<G>)
        requires
            old(self).wf(),
        ensures
            final(self).wf(),
            final(self)@ == old(self)@.remove(key@),
            match r {
                Some(value) => old(self)@.dom().contains(key@) && value == old(self)@[key@]
                    && final(self).count() == old(self).count() - 1,
                None => !old(self)@.dom().contains(key@) && *final(self) == *old(self),
            },
    {
        match self.find(key) {
            Some(i) => {
                let ghost before = *self;
                let ghost at = i as int;
                let _ = self.keys.remove(i);
                let value = self.values.remove(i);
                assert(self.wf()) by {
                    assert forall|a: int, b: int|
                        #![trigger self.keys@[a], self.keys@[b]]
                        0 <= a < b < self.keys@.len() implies self.keys@[a]@ != self.keys@[b]@ by {
                        let x = if a < at {
                            a
                        } else {
                            a + 1
                        };
                        let y = if b < at {
                            b
                        } else {
                            b + 1
                        };
                        assert(before.keys@[x]@ != before.keys@[y]@);
                    }
                }
                assert(self@ =~= before@.remove(key@)) by {
                    assert forall|k: Seq<char>|
                        self@.dom().contains(k) <==> before@.remove(key@).dom().contains(k) by {
                        if self@.dom().contains(k) {
                            let j = choose|j: int| named(self.keys@, j, k);
                            let x = if j < at {
                                j
                            } else {
                                j + 1
                            };
                            assert(before.keys@[x]@ == k);
                            before.lemma_at(x);
                            if x < at {
                                assert(before.keys@[x]@ != before.keys@[at]@);
                            } else {
                                assert(before.keys@[at]@ != before.keys@[x]@);
                            }
                        }
                        if before@.remove(key@).dom().contains(k) {
                            let x = choose|x: int| named(before.keys@, x, k);
                            assert(named(before.keys@, x, k));
                            let j = if x < at {
                                x
                            } else {
                                x - 1
                            };
                            assert(self.keys@[j]@ == k);
                            self.lemma_at(j);
                        }
                    }
                    assert forall|k: Seq<char>| self@.dom().contains(k) implies self@[k]
                        == before@.remove(key@)[k] by {
                        let j = choose|j: int| named(self.keys@, j, k);
                        assert(named(self.keys@, j, k));
                        self.lemma_at(j);
                        let x = if j < at {
                            j
                        } else {
                            j + 1
                        };
                        assert(before.keys@[x]@ == k);
                        before.lemma_at(x);
                        if x < at {
                            assert(before.keys@[x]@ != before.keys@[at]@);
                        } else {
                            assert(before.keys@[at]@ != before.keys@[x]@);
                        }
                    }
                }
                Some(value)
            },
            None => {
                assert(self@ =~= self@.remove(key@));
                None
            },
        }
    }

    /// Keeps a value under a name that is not used.
    pub fn put(&mut self, key: &str, value: G)
        requires
            old(self).wf(),
            !old(self)@.dom().contains(key@),
        ensures
            final(self).wf(),
            final(self)@ == old(self)@.insert(key@, value),
            final(self).count() == old(self).count() + 1,
    {
        let ghost before = *self;
        let ghost n = self.keys@.len() as int;
        assert forall|i: int| 0 <= i < self.keys@.len() implies (#[trigger] self.keys@[i])@
            != key@ by {
            self.lemma_at(i);
        }
        self.keys.push(owned(key));
        self.values.push(value);
        assert(self.wf()) by {
            assert forall|a: int, b: int|
                #![trigger self.keys@[a], self.keys@[b]]
                0 <= a < b < self.keys@.len() implies self.keys@[a]@ != self.keys@[b]@ by {
                if b < n {
                    assert(before.keys@[a]@ != before.keys@[b]@);
                } else {
                    assert(before.keys@[a]@ != key@);
                }
            }
        }
        assert(self@ =~= before@.insert(key@, value)) by {
            self.lemma_at(n);
            assert forall|k: Seq<char>|
                self@.dom().contains(k) <==> before@.insert(key@, value).dom().contains(k) by {
                if self@.dom().contains(k) && k != key@ {
                    let j = choose|j: int| named(self.keys@, j, k);
                    assert(named(self.keys@, j, k));
                    assert(before.keys@[j]@ == k);
                    before.lemma_at(j);
                }
                if before@.dom().contains(k) {
                    let j = choose|j: int| named(before.keys@, j, k);
                    assert(named(before.keys@, j, k));
                    assert(self.keys@[j]@ == k);
                    self.lemma_at(j);
                }
            }
            assert forall|k: Seq<char>| self@.dom().contains(k) implies self@[k] == before@.insert(
                key@,
                value,
            )[k] by {
                let j = choose|j: int| named(self.keys@, j, k);
                assert(named(self.keys@, j, k));
                self.lemma_at(j);
                if j < n {
                    assert(before.keys@[j]@ == k);
                    before.lemma_at(j);
                }
            }
        }
    }
}

} // verus!
