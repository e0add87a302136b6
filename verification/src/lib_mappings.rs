//! The address space of one owner: which library lies at which range of absolute
//! addresses.
//!
//! The ranges are kept in a vector in ascending order, so that an address is found
//! by binary search.

use vstd::prelude::*;
use crate::ranges::{
    disjoint_ranges, lookup, range_fits, starting_at, with_mapping, without_start, Mapping,
    RELATIVE_ADDRESS_LIMIT,
};

verus! {

/// The ranges lie in ascending order, each is well formed, and each ends before
/// the next one starts.
spec fn ascending<T>(s: Seq<Mapping<T>>) -> bool {
    &&& forall|i: int| 0 <= i < s.len() ==> (#[trigger] s[i]).well_formed()
    &&& forall|i: int, j: int|
        0 <= i < j < s.len() ==> (#[trigger] s[i]).end_avma <= (#[trigger] s[j]).start_avma
}

proof fn lemma_ascending_disjoint<T>(s: Seq<Mapping<T>>)
    requires
        ascending(s),
    ensures
        disjoint_ranges(s.to_set()),
{
    let set = s.to_set();
    assert forall|a: Mapping<T>, b: Mapping<T>|
        #![trigger set.contains(a), set.contains(b)]
        set.contains(a) && set.contains(b) && a != b implies !a.overlaps(b) by {
        let i = choose|i: int| 0 <= i < s.len() && s[i] == a;
        let j = choose|j: int| 0 <= j < s.len() && s[j] == b;
        if i < j {
            assert(s[i].end_avma <= s[j].start_avma);
        } else {
            assert(s[j].end_avma <= s[i].start_avma);
        }
    }
}

/// A set of non-overlapping address ranges, each with the library that lies
/// there. A range that is added takes the place of every range that it overlaps.
#[derive(Debug)]
pub struct LibMappings<T> {
    mappings: Vec<Mapping<T>>,
}

impl<T> View for LibMappings<T> {
    type V = Set<Mapping<T>>;

    /// The ranges that are currently held.
    closed spec fn view(&self) -> Set<Mapping<T>> {
        self.mappings@.to_set()
    }
}

impl<T> LibMappings<T> {
    /// The invariant of the type: the ranges are stored in ascending order and do
    /// not overlap.
    pub closed spec fn wf(&self) -> bool {
        ascending(self.mappings@)
    }

    /// The ranges of a well-formed value are disjoint.
    pub proof fn lemma_disjoint(&self)
        requires
            self.wf(),
        ensures
            disjoint_ranges(self@),
    {
        lemma_ascending_disjoint(self.mappings@);
    }

    /// An address space in which nothing is mapped.
    pub fn new() -> (r: Self)
        ensures
            r.wf(),
            r@ == Set::<Mapping<T>>::empty(),
    {
        let r = LibMappings { mappings: Vec::new() };
        assert(r.mappings@.to_set() =~= Set::<Mapping<T>>::empty());
        r
    }

    /// The number of ranges that end at or below `bound`. They are the first ones.
    fn count_ending_at_or_below(&self, bound: u64) -> (n: usize)
        requires
            self.wf(),
        ensures
            n <= self.mappings.len(),
            forall|i: int| 0 <= i < n ==> (#[trigger] self.mappings[i]).end_avma <= bound,
            forall|i: int|
                n <= i < self.mappings.len() ==> (#[trigger] self.mappings[i]).end_avma > bound,
    {
        let mut lo: usize = 0;
        let mut hi: usize = self.mappings.len();
        while lo < hi
            invariant
                lo <= hi <= self.mappings.len(),
                ascending(self.mappings@),
                forall|i: int| 0 <= i < lo ==> (#[trigger] self.mappings[i]).end_avma <= bound,
                forall|i: int|
                    hi <= i < self.mappings.len() ==> (#[trigger] self.mappings[i]).end_avma
                        > bound,
            decreases hi - lo,
        {
            let mid: usize = lo + (hi - lo) / 2;
            if self.mappings[mid].end_avma <= bound {
                assert forall|i: int| 0 <= i < mid + 1 implies (#[trigger] self.mappings[i]).end_avma
                    <= bound by {
                    if i < mid {
                        assert(self.mappings[i].end_avma <= self.mappings[mid as int].start_avma);
                    }
                }
                lo = mid + 1;
            } else {
                assert forall|i: int| mid <= i < self.mappings.len() implies (
                #[trigger] self.mappings[i]).end_avma > bound by {
                    if mid < i {
                        assert(self.mappings[mid as int].end_avma <= self.mappings[i].start_avma);
                    }
                }
                hi = mid;
            }
        }
        lo
    }

    /// The number of ranges that start below `bound`. They are the first ones.
    fn count_starting_below(&self, bound: u64) -> (n: usize)
        requires
            self.wf(),
        ensures
            n <= self.mappings.len(),
            forall|i: int| 0 <= i < n ==> (#[trigger] self.mappings[i]).start_avma < bound,
            forall|i: int|
                n <= i < self.mappings.len() ==> (#[trigger] self.mappings[i]).start_avma >= bound,
    {
        let mut lo: usize = 0;
        let mut hi: usize = self.mappings.len();
        while lo < hi
            invariant
                lo <= hi <= self.mappings.len(),
                ascending(self.mappings@),
                forall|i: int| 0 <= i < lo ==> (#[trigger] self.mappings[i]).start_avma < bound,
                forall|i: int|
                    hi <= i < self.mappings.len() ==> (#[trigger] self.mappings[i]).start_avma
                        >= bound,
            decreases hi - lo,
        {
            let mid: usize = lo + (hi - lo) / 2;
            if self.mappings[mid].start_avma < bound {
                assert forall|i: int| 0 <= i < mid + 1 implies (
                #[trigger] self.mappings[i]).start_avma < bound by {
                    if i < mid {
                        assert(self.mappings[i].end_avma <= self.mappings[mid as int].start_avma);
                    }
                }
                lo = mid + 1;
            } else {
                assert forall|i: int| mid <= i < self.mappings.len() implies (
                #[trigger] self.mappings[i]).start_avma >= bound by {
                    if mid < i {
                        assert(self.mappings[mid as int].end_avma <= self.mappings[i].start_avma);
                    }
                }
                hi = mid;
            }
        }
        lo
    }

    /// Whether a range with these bounds can be added: it is empty, or its
    /// relative addresses stay below the limit.
    pub fn accepts(start_avma: u64, end_avma: u64, relative_address_at_start: u32) -> (b: bool)
        ensures
            b == range_fits(start_avma, end_avma, relative_address_at_start),
    {
        start_avma >= end_avma || end_avma - start_avma <= RELATIVE_ADDRESS_LIMIT
            - relative_address_at_start as u64
    }

    /// Maps the library `value` at `[start_avma, end_avma)`. Every range that was
    /// held and overlaps the new one is dropped, whole. An empty range
    /// (`start_avma >= end_avma`) changes nothing.
    pub fn add_mapping(
        &mut self,
        start_avma: u64,
        end_avma: u64,
        relative_address_at_start: u32,
        value: T,
    )
        requires
            old(self).wf(),
            range_fits(start_avma, end_avma, relative_address_at_start),
        ensures
            final(self).wf(),
            final(self)@ == with_mapping(
                old(self)@,
                Mapping { start_avma, end_avma, relative_address_at_start, value },
            ),
    {
        if start_avma >= end_avma {
            return ;
        }
        let added = Mapping { start_avma, end_avma, relative_address_at_start, value };
        let lo = self.count_ending_at_or_below(start_avma);
        let hi = self.count_starting_below(end_avma);
        let ghost before = self.mappings@;
        proof {
            if hi < lo {
                assert(before[hi as int].end_avma <= start_avma);
                assert(before[hi as int].start_avma >= end_avma);
            }
        }
        let mut tail = self.mappings.split_off(hi);
        self.mappings.truncate(lo);
        self.mappings.push(added);
        self.mappings.append(&mut tail);
        proof {
            let after = self.mappings@;
            assert(after =~= before.subrange(0, lo as int).push(added) + before.subrange(
                hi as int,
                before.len() as int,
            ));
            assert forall|i: int, j: int| 0 <= i < j < after.len() implies (#[trigger] after[i]).end_avma
                <= (#[trigger] after[j]).start_avma by {
                if j < lo {
                    assert(before[i].end_avma <= before[j].start_avma);
                } else if j == lo {
                    assert(before[i].end_avma <= start_avma);
                } else if i < lo {
                    assert(before[i].end_avma <= start_avma);
                    assert(before[j - lo - 1 + hi].start_avma >= end_avma);
                } else if i == lo {
                    assert(before[j - lo - 1 + hi].start_avma >= end_avma);
                } else {
                    assert(before[i - lo - 1 + hi].end_avma <= before[j - lo - 1 + hi].start_avma);
                }
            }
            assert forall|i: int| 0 <= i < after.len() implies (#[trigger] after[i]).well_formed() by {
                if i < lo {
                    assert(before[i].well_formed());
                } else if i > lo {
                    assert(before[i - lo - 1 + hi].well_formed());
                }
            }
            let expected = with_mapping(before.to_set(), added);
            assert forall|x: Mapping<T>| after.to_set().contains(x) implies expected.contains(x) by {
                let i = choose|i: int| 0 <= i < after.len() && after[i] == x;
                if i < lo {
                    assert(before[i] == x);
                    assert(before[i].end_avma <= start_avma);
                } else if i > lo {
                    assert(before[i - lo - 1 + hi] == x);
                    assert(before[i - lo - 1 + hi].start_avma >= end_avma);
                }
            }
            assert forall|x: Mapping<T>| expected.contains(x) implies after.to_set().contains(x) by {
                if x == added {
                    assert(after[lo as int] == x);
                } else {
                    let k = choose|k: int| 0 <= k < before.len() && before[k] == x;
                    if k < lo {
                        assert(after[k] == x);
                    } else if k >= hi {
                        assert(after[k - hi + lo + 1] == x);
                    } else {
                        assert(before[k].end_avma > start_avma);
                        assert(before[k].start_avma < end_avma);
                    }
                }
            }
            assert(after.to_set() =~= expected);
        }
    }

    /// Drops the range that starts at `start_avma`, and returns its relative
    /// address and its library. Where no range starts there, nothing changes.
    pub fn remove_mapping(&mut self, start_avma: u64) -> (removed: Option<(u32, T)>)
        requires
            old(self).wf(),
        ensures
            final(self).wf(),
            final(self)@ == without_start(old(self)@, start_avma),
            match starting_at(old(self)@, start_avma) {
                Some(m) => removed == Some((m.relative_address_at_start, m.value)),
                None => removed is None && final(self)@ == old(self)@,
            },
    {
        let i = self.count_starting_below(start_avma);
        let ghost before = self.mappings@;
        proof {
            lemma_ascending_disjoint(before);
        }
        if i < self.mappings.len() && self.mappings[i].start_avma == start_avma {
            let m = self.mappings.remove(i);
            proof {
                let after = self.mappings@;
                crate::ranges::lemma_starting_at_unique(before.to_set(), m);
                assert forall|x: Mapping<T>| after.to_set().contains(x) implies without_start(
                    before.to_set(),
                    start_avma,
                ).contains(x) by {
                    let k = choose|k: int| 0 <= k < after.len() && after[k] == x;
                    if k < i {
                        assert(before[k] == x);
                        assert(before[k].end_avma <= before[i as int].start_avma);
                    } else {
                        assert(before[k + 1] == x);
                        assert(before[i as int].end_avma <= before[k + 1].start_avma);
                    }
                }
                assert forall|x: Mapping<T>|
                    without_start(before.to_set(), start_avma).contains(x) implies after.to_set().contains(
                    x,
                ) by {
                    let k = choose|k: int| 0 <= k < before.len() && before[k] == x;
                    if k < i {
                        assert(after[k] == x);
                    } else {
                        assert(after[k - 1] == x);
                    }
                }
                assert(after.to_set() =~= without_start(before.to_set(), start_avma));
            }
            Some((m.relative_address_at_start, m.value))
        } else {
            proof {
                assert forall|x: Mapping<T>| before.to_set().contains(x) implies x.start_avma
                    != start_avma by {
                    let k = choose|k: int| 0 <= k < before.len() && before[k] == x;
                    if k < i {
                        assert(before[k].start_avma < start_avma);
                    } else if k > i {
                        assert(before[i as int].end_avma <= before[k].start_avma);
                        assert(before[i as int].start_avma >= start_avma);
                    }
                }
                assert(before.to_set() =~= without_start(before.to_set(), start_avma));
            }
            None
        }
    }

    /// Drops every range.
    pub fn clear(&mut self)
        ensures
            final(self).wf(),
            final(self)@ == Set::<Mapping<T>>::empty(),
    {
        self.mappings.clear();
        assert(self.mappings@.to_set() =~= Set::<Mapping<T>>::empty());
    }

    /// Looks up the range that holds `avma`, and returns the relative address of
    /// `avma` in it and its library; `None` where no range holds `avma`. The
    /// search is binary.
    pub fn convert_address(&self, avma: u64) -> (found: Option<(u32, &T)>)
        requires
            self.wf(),
        ensures
            match lookup(self@, avma) {
                Some(m) => found == Some((m.relative_address(avma) as u32, &m.value)),
                None => found is None,
            },
    {
        let i = self.count_ending_at_or_below(avma);
        proof {
            lemma_ascending_disjoint(self.mappings@);
        }
        if i < self.mappings.len() && self.mappings[i].start_avma <= avma {
            let m = &self.mappings[i];
            proof {
                assert(self.mappings@.to_set().contains(*m));
                crate::ranges::lemma_lookup_unique(self@, *m, avma);
                assert(m.well_formed());
            }
            let offset: u32 = (avma - m.start_avma) as u32;
            Some((m.relative_address_at_start + offset, &m.value))
        } else {
            proof {
                assert forall|x: Mapping<T>| self@.contains(x) implies !x.covers(avma) by {
                    let k = choose|k: int| 0 <= k < self.mappings.len() && self.mappings[k] == x;
                    if k < i {
                        assert(self.mappings[k].end_avma <= avma);
                    } else if k > i {
                        assert(self.mappings[i as int].end_avma <= self.mappings[k].start_avma);
                    }
                }
            }
            None
        }
    }

    /// The number of ranges that are held.
    pub fn len(&self) -> (n: usize)
        requires
            self.wf(),
        ensures
            n == self@.len(),
            self@.finite(),
    {
        proof {
            lemma_ascending_no_duplicates(self.mappings@);
            self.mappings@.unique_seq_to_set();
        }
        self.mappings.len()
    }
}

proof fn lemma_ascending_no_duplicates<T>(s: Seq<Mapping<T>>)
    requires
        ascending(s),
    ensures
        s.no_duplicates(),
{
    assert forall|i: int, j: int| 0 <= i < s.len() && 0 <= j < s.len() && i != j implies s[i]
        != s[j] by {
        assert(s[i].well_formed() && s[j].well_formed());
        if i < j {
            assert(s[i].end_avma <= s[j].start_avma);
        } else {
            assert(s[j].end_avma <= s[i].start_avma);
        }
    }
}

} // verus!
