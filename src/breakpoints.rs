use vstd::prelude::*;

use crate::nibble::u12;

verus! {

/// A set of 12-bit addresses, kept as one presence flag per address.
pub struct BreakpointSet {
    present: Vec<bool>,
}

impl View for BreakpointSet {
    type V = Set<u16>;

    closed spec fn view(&self) -> Set<u16> {
        Set::new(|a: u16| a < 4096 && self.present@[a as int])
    }
}

impl BreakpointSet {
    /// One flag for each of the 4096 addresses.
    pub closed spec fn wf(&self) -> bool {
        self.present@.len() == 4096
    }

    /// An empty set.
    pub fn new() -> (r: BreakpointSet)
        ensures
            r.wf(),
            r@ == Set::<u16>::empty(),
    {
        let r = BreakpointSet { present: vec![false; 4096] };
        assert(r@ =~= Set::<u16>::empty());
        r
    }

    /// Adds an address.
    pub fn insert(&mut self, addr: u12)
        requires
            old(self).wf(),
        ensures
            final(self).wf(),
            final(self)@ == old(self)@.insert(addr@),
    {
        self.present.set(addr.index(), true);
        assert(self@ =~= old(self)@.insert(addr@));
    }

    /// Removes an address, if present.
    pub fn remove(&mut self, addr: u12)
        requires
            old(self).wf(),
        ensures
            final(self).wf(),
            final(self)@ == old(self)@.remove(addr@),
    {
        self.present.set(addr.index(), false);
        assert(self@ =~= old(self)@.remove(addr@));
    }

    /// Removes every address.
    pub fn clear(&mut self)
        requires
            old(self).wf(),
        ensures
            final(self).wf(),
            final(self)@ == Set::<u16>::empty(),
    {
        let mut a: usize = 0;
        while a < 4096
            invariant
                a <= 4096,
                self.present@.len() == 4096,
                forall|k: int| 0 <= k < a ==> !#[trigger] self.present@[k],
            decreases 4096 - a,
        {
            self.present.set(a, false);
            a = a + 1;
        }
        assert(self@ =~= Set::<u16>::empty());
    }

    /// Whether `addr` is in the set.
    pub fn contains(&self, addr: u16) -> (r: bool)
        requires
            self.wf(),
        ensures
            r == self@.contains(addr),
    {
        addr < 4096 && self.present[addr as usize]
    }

    /// The addresses in ascending order, each once.
    pub fn to_sorted_vec(&self) -> (r: Vec<u16>)
        requires
            self.wf(),
        ensures
            r@.to_set() == self@,
            forall|j: int, k: int| 0 <= j < k < r@.len() ==> r@[j] < r@[k],
            r@.len() == self@.len(),
    {
        let mut r: Vec<u16> = Vec::new();
        let mut a: u16 = 0;
        while a < 4096
            invariant
                a <= 4096,
                self.present@.len() == 4096,
                forall|b: u16| #[trigger] r@.contains(b) <==> (b < a && self@.contains(b)),
                forall|j: int, k: int| 0 <= j < k < r@.len() ==> r@[j] < r@[k],
                forall|j: int| 0 <= j < r@.len() ==> r@[j] < a,
            decreases 4096 - a,
        {
            let ghost prev = r@;
            assert(forall|b: u16| #[trigger] prev.contains(b) <==> (b < a && self@.contains(b)));
            let here = self.present[a as usize];
            assert(here == self@.contains(a));
            if here {
                r.push(a);
                proof {
                    assert(r@ == prev.push(a));
                    assert forall|b: u16| #[trigger] r@.contains(b) <==> (b <= a && self@.contains(
                        b,
                    )) by {
                        if b == a {
                            assert(r@[r@.len() - 1] == b);
                        } else {
                            if r@.contains(b) {
                                let j = choose|j: int| 0 <= j < r@.len() && r@[j] == b;
                                assert(prev[j] == b);
                            }
                            if prev.contains(b) {
                                let j = choose|j: int| 0 <= j < prev.len() && prev[j] == b;
                                assert(r@[j] == b);
                            }
                        }
                    }
                }
            } else {
                proof {
                    assert forall|b: u16| #[trigger] r@.contains(b) <==> (b <= a && self@.contains(
                        b,
                    )) by {
                        if b == a && r@.contains(b) {
                            let j = choose|j: int| 0 <= j < r@.len() && r@[j] == b;
                        }
                    }
                }
            }
            a = a + 1;
        }
        proof {
            assert(r@.no_duplicates());
            assert(r@.to_set() =~= self@);
            r@.unique_seq_to_set();
        }
        r
    }
}

/// Setting a breakpoint twice is setting it once: from an empty set, the set
/// then holds the one address.
pub proof fn lemma_insert_idempotent(s: Set<u16>, addr: u16)
    ensures
        s.insert(addr).insert(addr) == s.insert(addr),
        Set::<u16>::empty().insert(addr).insert(addr).len() == 1,
{
    assert(s.insert(addr).insert(addr) =~= s.insert(addr));
    assert(Set::<u16>::empty().insert(addr).insert(addr) =~= set![addr]);
}

} // verus!
