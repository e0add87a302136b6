//! Address ranges of loaded libraries, and the rules by which a set of them is
//! looked up and changed.
//!
//! Everything here is specification: a set of ranges is a `Set<Mapping<T>>`, and
//! the functions say what a lookup finds in it and what adding and removing a
//! range do to it.

use vstd::prelude::*;

verus! {

/// One past the largest relative address.
pub const RELATIVE_ADDRESS_LIMIT: u64 = 0x1_0000_0000;

/// A library mapped at the half-open range `[start_avma, end_avma)` of absolute
/// addresses. The address `start_avma` lies at `relative_address_at_start` in the
/// library's own address space, and `value` says which library it is.
#[derive(Debug)]
pub struct Mapping<T> {
    pub start_avma: u64,
    pub end_avma: u64,
    pub relative_address_at_start: u32,
    pub value: T,
}

impl<T> Mapping<T> {
    /// The range holds `avma`.
    pub open spec fn covers(self, avma: u64) -> bool {
        self.start_avma <= avma < self.end_avma
    }

    /// The two ranges have an address in common.
    pub open spec fn overlaps(self, other: Mapping<T>) -> bool {
        self.start_avma < other.end_avma && other.start_avma < self.end_avma
    }

    /// The range is not empty, and each of its addresses has a relative address
    /// below the limit.
    pub open spec fn well_formed(self) -> bool {
        &&& self.start_avma < self.end_avma
        &&& self.relative_address_at_start + (self.end_avma - self.start_avma)
            <= RELATIVE_ADDRESS_LIMIT
    }

    /// The relative address that belongs to `avma`.
    pub open spec fn relative_address(self, avma: u64) -> int {
        self.relative_address_at_start + (avma - self.start_avma)
    }
}

/// What a call with these arguments may add: an empty range (which adds
/// nothing), or one whose relative addresses stay below the limit.
pub open spec fn range_fits(start_avma: u64, end_avma: u64, relative_address_at_start: u32) -> bool {
    start_avma < end_avma ==> relative_address_at_start + (end_avma - start_avma)
        <= RELATIVE_ADDRESS_LIMIT
}

/// Every range of the set is well formed, and no two of them overlap.
pub open spec fn disjoint_ranges<T>(s: Set<Mapping<T>>) -> bool {
    &&& forall|m: Mapping<T>| #[trigger] s.contains(m) ==> m.well_formed()
    &&& forall|a: Mapping<T>, b: Mapping<T>|
        #![trigger s.contains(a), s.contains(b)]
        s.contains(a) && s.contains(b) && a != b ==> !a.overlaps(b)
}

/// The range of the set that holds `avma`, if there is one. In a set of disjoint
/// ranges there is at most one.
pub open spec fn lookup<T>(s: Set<Mapping<T>>, avma: u64) -> Option<Mapping<T>> {
    if exists|m: Mapping<T>| #[trigger] s.contains(m) && m.covers(avma) {
        Some(choose|m: Mapping<T>| #[trigger] s.contains(m) && m.covers(avma))
    } else {
        None
    }
}

/// The set after `m` was added: every range that overlaps `m` has left, and `m`
/// has come. An empty `m` changes nothing.
pub open spec fn with_mapping<T>(s: Set<Mapping<T>>, m: Mapping<T>) -> Set<Mapping<T>> {
    if m.start_avma < m.end_avma {
        s.filter(|x: Mapping<T>| !x.overlaps(m)).insert(m)
    } else {
        s
    }
}

/// The set without the range that starts at `start_avma`.
pub open spec fn without_start<T>(s: Set<Mapping<T>>, start_avma: u64) -> Set<Mapping<T>> {
    s.filter(|x: Mapping<T>| x.start_avma != start_avma)
}

/// The range of the set that starts at `start_avma`, if there is one.
pub open spec fn starting_at<T>(s: Set<Mapping<T>>, start_avma: u64) -> Option<Mapping<T>> {
    if exists|m: Mapping<T>| #[trigger] s.contains(m) && m.start_avma == start_avma {
        Some(choose|m: Mapping<T>| #[trigger] s.contains(m) && m.start_avma == start_avma)
    } else {
        None
    }
}

/// In a set of disjoint ranges, a range that holds `avma` is the one that a
/// lookup of `avma` finds.
pub proof fn lemma_lookup_unique<T>(s: Set<Mapping<T>>, m: Mapping<T>, avma: u64)
    requires
        disjoint_ranges(s),
        s.contains(m),
        m.covers(avma),
    ensures
        lookup(s, avma) == Some(m),
{
    let found = choose|x: Mapping<T>| #[trigger] s.contains(x) && x.covers(avma);
    assert(s.contains(found) && found.covers(avma));
    if found != m {
        assert(found.overlaps(m));
    }
}

/// In a set of disjoint ranges, a range that starts at `start_avma` is the only
/// one that does.
pub proof fn lemma_starting_at_unique<T>(s: Set<Mapping<T>>, m: Mapping<T>)
    requires
        disjoint_ranges(s),
        s.contains(m),
    ensures
        starting_at(s, m.start_avma) == Some(m),
{
    let found = choose|x: Mapping<T>| #[trigger] s.contains(x) && x.start_avma == m.start_avma;
    assert(s.contains(found) && found.start_avma == m.start_avma);
    if found != m {
        assert(found.overlaps(m));
    }
}

/// A lookup finds nothing exactly when no range of the set holds the address.
pub proof fn lemma_lookup_none<T>(s: Set<Mapping<T>>, avma: u64)
    ensures
        lookup(s, avma) is None <==> forall|m: Mapping<T>| #[trigger]
            s.contains(m) ==> !m.covers(avma),
        lookup(s, avma) matches Some(m) ==> s.contains(m) && m.covers(avma),
{
}

/// Adding a well-formed range to disjoint ranges leaves disjoint ranges.
pub proof fn lemma_with_mapping_disjoint<T>(s: Set<Mapping<T>>, m: Mapping<T>)
    requires
        disjoint_ranges(s),
        m.start_avma < m.end_avma ==> m.well_formed(),
    ensures
        disjoint_ranges(with_mapping(s, m)),
{
}

/// Removing a range from disjoint ranges leaves disjoint ranges.
pub proof fn lemma_without_start_disjoint<T>(s: Set<Mapping<T>>, start_avma: u64)
    requires
        disjoint_ranges(s),
    ensures
        disjoint_ranges(without_start(s, start_avma)),
{
}

/// A range that has just been added is the one that every address in it resolves
/// to, whatever was mapped there before and however the old ranges overlapped it.
pub proof fn lemma_added_range_wins<T>(s: Set<Mapping<T>>, m: Mapping<T>, avma: u64)
    requires
        disjoint_ranges(s),
        m.well_formed(),
        m.covers(avma),
    ensures
        lookup(with_mapping(s, m), avma) == Some(m),
{
    lemma_with_mapping_disjoint(s, m);
    lemma_lookup_unique(with_mapping(s, m), m, avma);
}

/// Outside a range that has just been added, an address resolves as before,
/// unless the range that held it overlapped the new one and so has left.
pub proof fn lemma_added_range_elsewhere<T>(s: Set<Mapping<T>>, m: Mapping<T>, avma: u64)
    requires
        disjoint_ranges(s),
        m.start_avma < m.end_avma ==> m.well_formed(),
        !m.covers(avma),
    ensures
        lookup(with_mapping(s, m), avma) == match lookup(s, avma) {
            Some(x) => if m.start_avma < m.end_avma && x.overlaps(m) {
                None
            } else {
                Some(x)
            },
            None => None,
        },
{
    let t = with_mapping(s, m);
    lemma_with_mapping_disjoint(s, m);
    match lookup(s, avma) {
        Some(x) => {
            if m.start_avma < m.end_avma && x.overlaps(m) {
                assert forall|y: Mapping<T>| #[trigger] t.contains(y) implies !y.covers(avma) by {
                    if y != m && y != x {
                        assert(s.contains(y) && s.contains(x));
                        if y.covers(avma) {
                            assert(y.overlaps(x));
                        }
                    }
                }
            } else {
                assert(t.contains(x));
                lemma_lookup_unique(t, x, avma);
            }
        },
        None => {
            assert forall|y: Mapping<T>| #[trigger] t.contains(y) implies !y.covers(avma) by {
                if y != m {
                    assert(s.contains(y));
                }
            }
        },
    }
}

/// Once every range has been dropped, no address resolves.
pub proof fn lemma_empty_resolves_nothing<T>(avma: u64)
    ensures
        lookup(Set::<Mapping<T>>::empty(), avma) is None,
{
}

/// Removing by a start address at which no range starts changes nothing.
pub proof fn lemma_remove_absent_start<T>(s: Set<Mapping<T>>, start_avma: u64)
    requires
        starting_at(s, start_avma) is None,
    ensures
        without_start(s, start_avma) == s,
{
    assert forall|x: Mapping<T>| s.contains(x) implies x.start_avma != start_avma by {
        if x.start_avma == start_avma {
            assert(s.contains(x) && x.start_avma == start_avma);
        }
    }
    assert(without_start(s, start_avma) =~= s);
}

/// After a removal, an address resolves as before, unless the range that held it
/// was the one removed.
pub proof fn lemma_removed_range_elsewhere<T>(s: Set<Mapping<T>>, start_avma: u64, avma: u64)
    requires
        disjoint_ranges(s),
    ensures
        lookup(without_start(s, start_avma), avma) == match lookup(s, avma) {
            Some(x) => if x.start_avma == start_avma {
                None
            } else {
                Some(x)
            },
            None => None,
        },
{
    let t = without_start(s, start_avma);
    match lookup(s, avma) {
        Some(x) => {
            if x.start_avma == start_avma {
                assert forall|y: Mapping<T>| #[trigger] t.contains(y) implies !y.covers(avma) by {
                    assert(s.contains(y) && s.contains(x));
                    if y.covers(avma) {
                        assert(y.overlaps(x));
                    }
                }
            } else {
                assert(t.contains(x));
                lemma_lookup_unique(t, x, avma);
            }
        },
        None => {
            assert forall|y: Mapping<T>| #[trigger] t.contains(y) implies !y.covers(avma) by {
                assert(s.contains(y));
            }
        },
    }
}

/// One change to a set of ranges.
pub enum MappingOp<T> {
    /// A range is added.
    Add(Mapping<T>),
    /// The range that starts at this address is removed.
    Remove(u64),
    /// Every range is dropped.
    Clear,
}

impl<T> MappingOp<T> {
    /// The change can be made: a range that is added and is not empty keeps its
    /// relative addresses below the limit.
    pub open spec fn allowed(self) -> bool {
        match self {
            MappingOp::Add(m) => m.start_avma < m.end_avma ==> m.well_formed(),
            _ => true,
        }
    }

    /// The change adds a range that holds `avma`.
    pub open spec fn adds_cover_of(self, avma: u64) -> bool {
        match self {
            MappingOp::Add(m) => m.covers(avma),
            _ => false,
        }
    }
}

/// The set after one change.
pub open spec fn apply_op<T>(s: Set<Mapping<T>>, op: MappingOp<T>) -> Set<Mapping<T>> {
    match op {
        MappingOp::Add(m) => with_mapping(s, m),
        MappingOp::Remove(start_avma) => without_start(s, start_avma),
        MappingOp::Clear => Set::empty(),
    }
}

/// The set after the changes `ops`, made in order to an empty address space.
pub open spec fn apply_ops<T>(ops: Seq<MappingOp<T>>) -> Set<Mapping<T>>
    decreases ops.len(),
{
    if ops.len() == 0 {
        Set::empty()
    } else {
        apply_op(apply_ops(ops.drop_last()), ops.last())
    }
}

/// Whatever changes are made, the ranges stay disjoint.
pub proof fn lemma_apply_ops_disjoint<T>(ops: Seq<MappingOp<T>>)
    requires
        forall|i: int| 0 <= i < ops.len() ==> (#[trigger] ops[i]).allowed(),
    ensures
        disjoint_ranges(apply_ops(ops)),
    decreases ops.len(),
{
    if ops.len() > 0 {
        lemma_apply_ops_disjoint(ops.drop_last());
        let s = apply_ops(ops.drop_last());
        match ops.last() {
            MappingOp::Add(m) => lemma_with_mapping_disjoint(s, m),
            MappingOp::Remove(start_avma) => lemma_without_start_disjoint(s, start_avma),
            MappingOp::Clear => {},
        }
    }
}

/// After any changes, an address resolves to the range that was added last among
/// those that hold it, or to nothing: where the lookup finds a range, some change
/// added that range, and no later change added another range that holds the
/// address.
pub proof fn lemma_resolves_to_latest_cover<T>(ops: Seq<MappingOp<T>>, avma: u64)
    requires
        forall|i: int| 0 <= i < ops.len() ==> (#[trigger] ops[i]).allowed(),
    ensures
        lookup(apply_ops(ops), avma) matches Some(m) ==> exists|i: int|
            0 <= i < ops.len() && #[trigger] ops[i] == MappingOp::Add(m) && m.covers(avma)
                && forall|j: int| i < j < ops.len() ==> !(#[trigger] ops[j]).adds_cover_of(avma),
    decreases ops.len(),
{
    if ops.len() > 0 {
        let earlier = ops.drop_last();
        let s = apply_ops(earlier);
        let last = ops.len() - 1;
        lemma_resolves_to_latest_cover(earlier, avma);
        lemma_apply_ops_disjoint(earlier);
        lemma_apply_ops_disjoint(ops);
        if let Some(m) = lookup(apply_ops(ops), avma) {
            if ops.last() == MappingOp::Add(m) {
                assert(ops[last] == MappingOp::Add(m));
            } else {
                assert(s.contains(m));
                lemma_lookup_unique(s, m, avma);
                let i = choose|i: int|
                    0 <= i < earlier.len() && #[trigger] earlier[i] == MappingOp::Add(m)
                        && m.covers(avma) && forall|j: int|
                        i < j < earlier.len() ==> !(#[trigger] earlier[j]).adds_cover_of(avma);
                assert(ops[i] == earlier[i]);
                assert forall|j: int| i < j < ops.len() implies !(#[trigger] ops[j]).adds_cover_of(
                    avma,
                ) by {
                    if j < last {
                        assert(ops[j] == earlier[j]);
                    } else if let MappingOp::Add(n) = ops.last() {
                        if n.covers(avma) {
                            lemma_added_range_wins(s, n, avma);
                        }
                    }
                }
            }
        }
    }
}

/// The change leaves the range `m` in place: it is no clearing, no removal at
/// the start of `m`, and no adding of a range that overlaps `m`.
pub open spec fn spares<T>(op: MappingOp<T>, m: Mapping<T>) -> bool {
    match op {
        MappingOp::Add(n) => !(n.start_avma < n.end_avma && n.overlaps(m)),
        MappingOp::Remove(start_avma) => start_avma != m.start_avma,
        MappingOp::Clear => false,
    }
}

/// A range that was added and that every later change has spared is still
/// there, and every address in it resolves to it.
pub proof fn lemma_spared_range_resolves<T>(ops: Seq<MappingOp<T>>, i: int, m: Mapping<T>, avma: u64)
    requires
        forall|k: int| 0 <= k < ops.len() ==> (#[trigger] ops[k]).allowed(),
        0 <= i < ops.len(),
        ops[i] == MappingOp::Add(m),
        m.start_avma < m.end_avma,
        forall|j: int| i < j < ops.len() ==> spares(#[trigger] ops[j], m),
        m.covers(avma),
    ensures
        apply_ops(ops).contains(m),
        lookup(apply_ops(ops), avma) == Some(m),
    decreases ops.len(),
{
    let earlier = ops.drop_last();
    let last = ops.len() - 1;
    if i < last {
        assert(earlier[i] == ops[i]);
        assert forall|j: int| i < j < earlier.len() implies spares(#[trigger] earlier[j], m) by {
            assert(earlier[j] == ops[j]);
        }
        lemma_spared_range_resolves(earlier, i, m, avma);
        assert(spares(ops[last], m));
    }
    lemma_apply_ops_disjoint(ops);
    lemma_lookup_unique(apply_ops(ops), m, avma);
}

} // verus!
