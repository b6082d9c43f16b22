//! The order of identifiers: that of their bytes, the first byte weighing
//! most.

use core::cmp::Ordering;
use vstd::prelude::*;

verus! {

/// Where `a` and `b`, of one length, first differ; their length where they
/// do not.
pub open spec fn first_difference(a: Seq<u8>, b: Seq<u8>) -> int
    decreases a.len(),
{
    if a.len() == 0 || b.len() == 0 || a[0] != b[0] {
        0
    } else {
        1 + first_difference(a.drop_first(), b.drop_first())
    }
}

/// How `a` stands to `b`, of the same length, byte by byte.
pub open spec fn bytewise(a: Seq<u8>, b: Seq<u8>) -> Ordering {
    let at = first_difference(a, b);
    if at >= a.len() || at >= b.len() {
        Ordering::Equal
    } else if a[at] < b[at] {
        Ordering::Less
    } else {
        Ordering::Greater
    }
}

/// Where the first `at` bytes agree, the first difference is at `at` if the
/// bytes there differ, and there is none if `at` is the end.
pub proof fn lemma_first_difference(a: Seq<u8>, b: Seq<u8>, at: int)
    requires
        a.len() == b.len(),
        0 <= at <= a.len(),
        forall|j: int| 0 <= j < at ==> a[j] == b[j],
        at < a.len() ==> a[at] != b[at],
    ensures
        first_difference(a, b) == at,
    decreases at,
{
    if at > 0 {
        lemma_first_difference(a.drop_first(), b.drop_first(), at - 1);
    }
}

/// Bytes stand equal to each other exactly where they are the same bytes.
pub proof fn lemma_bytewise_equal(a: Seq<u8>, b: Seq<u8>)
    requires
        a.len() == b.len(),
    ensures
        bytewise(a, b) == Ordering::Equal <==> a == b,
    decreases a.len(),
{
    if a.len() > 0 && a[0] == b[0] {
        lemma_bytewise_equal(a.drop_first(), b.drop_first());
        if a.drop_first() == b.drop_first() {
            assert(a =~= seq![a[0]] + a.drop_first());
            assert(b =~= seq![b[0]] + b.drop_first());
        }
    } else if a.len() == 0 {
        assert(a =~= b);
    }
}

/// Compares two slices of one length byte by byte.
pub fn compare(a: &[u8], b: &[u8]) -> (r: Ordering)
    requires
        a@.len() == b@.len(),
    ensures
        r == bytewise(a@, b@),
{
    let mut i: usize = 0;
    let ghost mut same: int = 0;
    while i < a.len()
        invariant
            a@.len() == b@.len(),
            same == i,
            same <= a@.len(),
            forall|j: int| 0 <= j < same ==> a@[j] == b@[j],
        decreases a@.len() - same,
    {
        if a[i] != b[i] {
            proof {
                lemma_first_difference(a@, b@, same);
            }
            if a[i] < b[i] {
                return Ordering::Less;
            } else {
                return Ordering::Greater;
            }
        }
        i += 1;
        proof {
            same = same + 1;
        }
    }
    proof {
        lemma_first_difference(a@, b@, same);
    }
    Ordering::Equal
}

} // verus!
