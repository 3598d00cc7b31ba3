//! The ordering predicate between a candidate digest and a decoded target.
use vstd::prelude::*;

verus! {

/// `a` is lexicographically at most `b`, most significant byte first
/// (both sequences have the same length).
pub open spec fn lex_at_most(a: Seq<u8>, b: Seq<u8>) -> bool {
    (forall|i: int| 0 <= i < a.len() ==> a[i] == b[i])
    || exists|k: int|
        0 <= k < a.len() && a[k] < b[k] && (forall|j: int| 0 <= j < k ==> a[j] == b[j])
}

/// The candidate is accepted against the target: the lengths agree and every
/// byte but the last is, read as one big-endian number, at most the target's.
/// The final byte of the candidate is never looked at.
pub open spec fn satisfies(candidate: Seq<u8>, target: Seq<u8>) -> bool {
    &&& candidate.len() == target.len()
    &&& (candidate.len() == 0 || lex_at_most(candidate.drop_last(), target.drop_last()))
}

/// Decides `satisfies(result@, target@)`: scans from the most significant byte
/// up to, not including, the last one; a larger byte rejects, a smaller byte
/// accepts, equal bytes go on.
pub fn verify_nonce(result: &Vec<u8>, target: &Vec<u8>) -> (r: bool)
    ensures
        r == satisfies(result@, target@),
{
    if result.len() != target.len() {
        return false;
    }
    if result.len() == 0 {
        return true;
    }
    let last: usize = result.len() - 1;
    let ghost a = result@.drop_last();
    let ghost b = target@.drop_last();
    let mut i: usize = 0;
    while i < last
        invariant
            i <= last,
            last + 1 == result@.len(),
            result@.len() == target@.len(),
            a == result@.drop_last(),
            b == target@.drop_last(),
            forall|j: int| 0 <= j < i ==> a[j] == b[j],
        decreases last - i,
    {
        if result[i] > target[i] {
            assert(!lex_at_most(a, b)) by {
                assert(!(a[i as int] == b[i as int]));
                assert forall|k: int|
                    0 <= k < a.len() && a[k] < b[k] implies !(forall|j: int|
                    0 <= j < k ==> a[j] == b[j]) by {
                    if k > i {
                        assert(!(a[i as int] == b[i as int]));
                    }
                }
            }
            return false;
        } else if result[i] < target[i] {
            assert(a[i as int] < b[i as int]);
            return true;
        }
        i = i + 1;
    }
    true
}

/// A candidate equal to the target is accepted.
pub proof fn law_equal_is_accepted(candidate: Seq<u8>)
    ensures
        satisfies(candidate, candidate),
{
}

/// When the first byte is larger than the target's, and it is not also the
/// last byte, the candidate is rejected whatever the other bytes hold.
pub proof fn law_larger_first_byte_rejects(candidate: Seq<u8>, target: Seq<u8>)
    requires
        candidate.len() == target.len(),
        candidate.len() >= 2,
        candidate[0] > target[0],
    ensures
        !satisfies(candidate, target),
{
    let a = candidate.drop_last();
    let b = target.drop_last();
    assert(a[0] != b[0]);
    assert forall|k: int|
        0 <= k < a.len() && a[k] < b[k] implies !(forall|j: int| 0 <= j < k ==> a[j] == b[j]) by {
        if k > 0 {
            assert(a[0] != b[0]);
        }
    }
}

/// Two candidates that differ at most in their last byte are both accepted or
/// both rejected, since the last byte is never compared.
pub proof fn law_last_byte_is_ignored(first: Seq<u8>, second: Seq<u8>, target: Seq<u8>)
    requires
        first.len() == second.len(),
        first.len() >= 1,
        first.drop_last() == second.drop_last(),
    ensures
        satisfies(first, target) == satisfies(second, target),
{
}

} // verus!
