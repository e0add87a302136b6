//! The order of strings: byte by byte, as the standard library orders them.

use std::cmp::Ordering;
use vstd::prelude::*;

verus! {

/// `a` comes before `b` in the lexicographic order of their bytes: at the first
/// place where they differ `a` has the smaller byte, or `a` ends there and `b`
/// goes on.
pub open spec fn bytes_before(a: Seq<u8>, b: Seq<u8>) -> bool {
    exists|k: int|
        0 <= k <= a.len() && k < b.len() && #[trigger] a.take(k) == b.take(k) && (k == a.len()
            || a[k] < b[k])
}

/// How `a` stands to `b` in the lexicographic order of their bytes.
pub open spec fn bytes_order(a: Seq<u8>, b: Seq<u8>) -> Ordering {
    if a == b {
        Ordering::Equal
    } else if bytes_before(a, b) {
        Ordering::Less
    } else {
        Ordering::Greater
    }
}

/// Of two different byte strings, exactly one comes before the other.
pub proof fn lemma_bytes_order_total(a: Seq<u8>, b: Seq<u8>)
    ensures
        a == b ==> !bytes_before(a, b) && !bytes_before(b, a),
        a != b ==> (bytes_before(a, b) <==> !bytes_before(b, a)),
    decreases a.len() + b.len(),
{
    if a == b {
        assert forall|k: int|
            0 <= k <= a.len() && k < b.len() && #[trigger] a.take(k) == b.take(k) implies !(k
            == a.len() || a[k] < b[k]) by {}
    } else {
        let k = first_difference(a, b, 0);
        assert(a.take(0) =~= b.take(0));
        lemma_first_difference(a, b, 0);
        if k == a.len() {
            assert(k < b.len()) by {
                if k >= b.len() {
                    assert(a =~= a.take(k));
                    assert(b =~= b.take(k));
                }
            }
            assert(bytes_before(a, b));
            lemma_difference_decides(b, a, k);
        } else if k == b.len() {
            assert(b.take(k) == a.take(k));
            assert(bytes_before(b, a));
            lemma_difference_decides(a, b, k);
        } else if a[k] < b[k] {
            assert(bytes_before(a, b));
            lemma_difference_decides(b, a, k);
        } else {
            assert(b.take(k) == a.take(k));
            assert(bytes_before(b, a));
            lemma_difference_decides(a, b, k);
        }
    }
}

/// The first place at or after `from` where `a` and `b` differ or one of them
/// ends.
spec fn first_difference(a: Seq<u8>, b: Seq<u8>, from: int) -> int
    decreases a.len() - from,
{
    if 0 <= from < a.len() && from < b.len() && a[from] == b[from] {
        first_difference(a, b, from + 1)
    } else {
        from
    }
}

proof fn lemma_first_difference(a: Seq<u8>, b: Seq<u8>, from: int)
    requires
        0 <= from <= a.len(),
        from <= b.len(),
        a.take(from) == b.take(from),
    ensures
        from <= first_difference(a, b, from) <= a.len(),
        first_difference(a, b, from) <= b.len(),
        a.take(first_difference(a, b, from)) == b.take(first_difference(a, b, from)),
        first_difference(a, b, from) < a.len() && first_difference(a, b, from) < b.len() ==> a[first_difference(
            a,
            b,
            from,
        )] != b[first_difference(a, b, from)],
    decreases a.len() - from,
{
    if from < a.len() && from < b.len() && a[from] == b[from] {
        assert(a.take(from + 1) =~= a.take(from).push(a[from]));
        assert(b.take(from + 1) =~= b.take(from).push(b[from]));
        lemma_first_difference(a, b, from + 1);
    }
}

/// Where `a` and `b` agree before `k`, and at `k` either `b` ends or `a` has the
/// larger byte, `a` does not come before `b`.
proof fn lemma_difference_decides(a: Seq<u8>, b: Seq<u8>, k: int)
    requires
        0 <= k <= a.len(),
        k <= b.len(),
        a.take(k) == b.take(k),
        k == b.len() || (k < a.len() && a[k] > b[k]),
    ensures
        !bytes_before(a, b),
{
    assert forall|j: int|
        0 <= j <= a.len() && j < b.len() && #[trigger] a.take(j) == b.take(j) implies !(j
        == a.len() || a[j] < b[j]) by {
        if j < k {
            assert(a.take(k)[j] == a[j]);
            assert(b.take(k)[j] == b[j]);
        } else if j > k {
            assert(a.take(j)[k] == a[k]);
            assert(b.take(j)[k] == b[k]);
        }
    }
}

/// Whether `a` comes before `b` in lexicographic order, and whether they are the
/// same.
pub fn before_or_same(a: &[u8], b: &[u8]) -> (r: (bool, bool))
    ensures
        r.0 == bytes_before(a@, b@),
        r.1 == (a@ == b@),
{
    let mut i: usize = 0;
    while i < a.len() && i < b.len()
        invariant
            i <= a.len(),
            i <= b.len(),
            a@.take(i as int) == b@.take(i as int),
        decreases a.len() - i,
    {
        if a[i] < b[i] {
            proof {
                assert(bytes_before(a@, b@));
                assert(a@ != b@);
            }
            return (true, false);
        }
        if a[i] > b[i] {
            proof {
                lemma_difference_decides(a@, b@, i as int);
                assert(a@ != b@);
            }
            return (false, false);
        }
        proof {
            assert(a@.take(i + 1) =~= a@.take(i as int).push(a@[i as int]));
            assert(b@.take(i + 1) =~= b@.take(i as int).push(b@[i as int]));
        }
        i += 1;
    }
    if i < b.len() {
        proof {
            assert(bytes_before(a@, b@));
            assert(a@.len() != b@.len());
        }
        (true, false)
    } else if i < a.len() {
        proof {
            lemma_difference_decides(a@, b@, i as int);
            assert(a@.len() != b@.len());
        }
        (false, false)
    } else {
        proof {
            assert(a@ =~= a@.take(i as int));
            assert(b@ =~= b@.take(i as int));
            lemma_difference_decides(a@, b@, i as int);
        }
        (false, true)
    }
}

/// Compares two byte strings in lexicographic order.
pub fn order_of_bytes(a: &[u8], b: &[u8]) -> (o: Ordering)
    ensures
        o == bytes_order(a@, b@),
{
    let (before, same) = before_or_same(a, b);
    if same {
        Ordering::Equal
    } else if before {
        Ordering::Less
    } else {
        Ordering::Greater
    }
}

} // verus!
