//! An in-memory realization of the shared store's named-set interface.
//!
//! The queue protocol needs exactly three atomic operations on named sets of
//! keys: add a member (reporting whether it was newly inserted), remove a
//! member, and take the difference of two sets. `KeySet` provides them with
//! verified set semantics; any store offering the same operations (a
//! Redis-compatible server, for instance) can stand in for it at a deployment
//! boundary.

use vstd::prelude::*;

verus! {

/// Holds when `k` is the view of some element of `items`.
pub open spec fn seq_has_key(items: Seq<String>, k: Seq<char>) -> bool {
    exists|i: int| 0 <= i < items.len() && items[i]@ == k
}

/// A named set of queue keys: membership only, no duplicates, and no order
/// promised to callers.
pub struct KeySet {
    items: Vec<String>,
}

impl View for KeySet {
    type V = Set<Seq<char>>;

    closed spec fn view(&self) -> Set<Seq<char>> {
        Set::new(|k: Seq<char>| seq_has_key(self.items@, k))
    }
}

impl KeySet {
    /// No key occurs twice in the backing vector, so adding a member that is
    /// already present leaves the contents unchanged.
    pub closed spec fn wf(&self) -> bool {
        forall|i: int, j: int|
            0 <= i < j < self.items@.len() ==> self.items@[i]@ != self.items@[j]@
    }

    /// An empty set.
    pub fn new() -> (s: KeySet)
        ensures
            s.wf(),
            s@ == Set::<Seq<char>>::empty(),
    {
        let s = KeySet { items: Vec::new() };
        proof {
            assert(s@ =~= Set::<Seq<char>>::empty());
        }
        s
    }

    /// Membership test.
    pub fn contains_key(&self, key: &String) -> (r: bool)
        ensures
            r == self@.contains(key@),
    {
        let mut i: usize = 0;
        while i < self.items.len()
            invariant
                i <= self.items@.len(),
                forall|j: int| 0 <= j < i ==> self.items@[j]@ != key@,
            decreases self.items@.len() - i,
        {
            if self.items[i] == *key {
                assert(seq_has_key(self.items@, key@));
                return true;
            }
            i = i + 1;
        }
        assert(!seq_has_key(self.items@, key@));
        false
    }

    /// Atomic add: inserts the key and reports whether it was newly inserted,
    /// the store primitive on which the claim protocol's synchronization
    /// rests.
    pub fn add(&mut self, key: &String) -> (newly: bool)
        requires
            old(self).wf(),
        ensures
            final(self).wf(),
            newly == !old(self)@.contains(key@),
            final(self)@ == old(self)@.insert(key@),
    {
        if self.contains_key(key) {
            proof {
                assert(self@ =~= self@.insert(key@));
            }
            false
        } else {
            let ghost before = self.items@;
            self.items.push(key.clone());
            proof {
                assert(forall|j: int| 0 <= j < before.len() ==> before[j]@ != key@);
                assert forall|k: Seq<char>| #[trigger] self@.contains(k)
                    implies old(self)@.insert(key@).contains(k) by {
                    let i = choose|i: int| 0 <= i < self.items@.len() && self.items@[i]@ == k;
                    if i < before.len() {
                        assert(before[i]@ == k);
                    }
                }
                assert forall|k: Seq<char>| old(self)@.insert(key@).contains(k)
                    implies #[trigger] self@.contains(k) by {
                    if k == key@ {
                        assert(self.items@[before.len() as int]@ == k);
                    } else {
                        let i = choose|i: int| 0 <= i < before.len() && before[i]@ == k;
                        assert(self.items@[i]@ == k);
                    }
                }
                assert(self@ =~= old(self)@.insert(key@));
            }
            true
        }
    }

    /// Removes the key; removing an absent member is a no-op, as in the
    /// store's own remove primitive.
    pub fn remove(&mut self, key: &String)
        requires
            old(self).wf(),
        ensures
            final(self).wf(),
            final(self)@ == old(self)@.remove(key@),
    {
        let mut i: usize = 0;
        while i < self.items.len()
            invariant
                i <= self.items@.len(),
                old(self).wf(),
                self.items@ == old(self).items@,
                forall|j: int| 0 <= j < i ==> self.items@[j]@ != key@,
            decreases self.items@.len() - i,
        {
            if self.items[i] == *key {
                let ghost before = self.items@;
                self.items.remove(i);
                proof {
                    assert forall|k: Seq<char>| #[trigger] self@.contains(k)
                        implies old(self)@.remove(key@).contains(k) by {
                        let t = choose|t: int| 0 <= t < self.items@.len() && self.items@[t]@ == k;
                        if t < i {
                            assert(before[t]@ == k);
                        } else {
                            assert(before[t + 1]@ == k);
                        }
                    }
                    assert forall|k: Seq<char>| old(self)@.remove(key@).contains(k)
                        implies #[trigger] self@.contains(k) by {
                        let t = choose|t: int| 0 <= t < before.len() && before[t]@ == k;
                        if t < i {
                            assert(self.items@[t]@ == k);
                        } else {
                            assert(t != i);
                            assert(self.items@[t - 1]@ == k);
                        }
                    }
                    assert(self@ =~= old(self)@.remove(key@));
                }
                return;
            }
            i = i + 1;
        }
        proof {
            assert(!self@.contains(key@));
            assert(self@ =~= self@.remove(key@));
        }
    }

    /// Set difference: every key of `self` that is not in `other`, each
    /// exactly once, in no promised order. This is the store primitive the
    /// consumer uses to compute the claimable set.
    pub fn diff(&self, other: &KeySet) -> (r: Vec<String>)
        requires
            self.wf(),
        ensures
            forall|i: int|
                0 <= i < r@.len() ==> self@.contains(#[trigger] r@[i]@) && !other@.contains(r@[i]@),
            forall|k: Seq<char>|
                self@.contains(k) && !other@.contains(k) ==> seq_has_key(r@, k),
            forall|i: int, j: int| 0 <= i < j < r@.len() ==> r@[i]@ != r@[j]@,
    {
        let mut r: Vec<String> = Vec::new();
        let mut i: usize = 0;
        while i < self.items.len()
            invariant
                i <= self.items@.len(),
                self.wf(),
                forall|t: int|
                    0 <= t < r@.len()
                        ==> exists|j: int| 0 <= j < i && self.items@[j]@ == #[trigger] r@[t]@,
                forall|t: int| 0 <= t < r@.len() ==> !other@.contains(#[trigger] r@[t]@),
                forall|j: int|
                    0 <= j < i && !other@.contains(#[trigger] self.items@[j]@)
                        ==> seq_has_key(r@, self.items@[j]@),
                forall|t: int, u: int| 0 <= t < u < r@.len() ==> r@[t]@ != r@[u]@,
            decreases self.items@.len() - i,
        {
            if !other.contains_key(&self.items[i]) {
                let ghost r_before = r@;
                proof {
                    assert forall|t: int| 0 <= t < r@.len()
                        implies r@[t]@ != self.items@[i as int]@ by {
                        let j = choose|j: int| 0 <= j < i && self.items@[j]@ == r@[t]@;
                        assert(self.items@[j]@ != self.items@[i as int]@);
                    }
                }
                r.push(self.items[i].clone());
                proof {
                    assert(r@[r_before.len() as int]@ == self.items@[i as int]@);
                    assert forall|j: int|
                        0 <= j < i + 1 && !other@.contains(#[trigger] self.items@[j]@)
                        implies seq_has_key(r@, self.items@[j]@) by {
                        if j < i {
                            assert(seq_has_key(r_before, self.items@[j]@));
                            let t = choose|t: int|
                                0 <= t < r_before.len() && r_before[t]@ == self.items@[j]@;
                            assert(r@[t]@ == self.items@[j]@);
                        }
                    }
                }
            }
            i = i + 1;
        }
        proof {
            assert forall|t: int| 0 <= t < r@.len() implies self@.contains(#[trigger] r@[t]@) by {
                assert(seq_has_key(self.items@, r@[t]@));
            }
            assert forall|k: Seq<char>| self@.contains(k) && !other@.contains(k)
                implies seq_has_key(r@, k) by {
                let j = choose|j: int| 0 <= j < self.items@.len() && self.items@[j]@ == k;
                assert(!other@.contains(self.items@[j]@));
            }
        }
        r
    }
}

} // verus!
