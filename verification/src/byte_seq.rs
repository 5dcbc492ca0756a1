//! Byte-level helpers shared by routing and header handling.

use vstd::prelude::*;

verus! {

/// `p` is a prefix of `s`.
pub open spec fn is_prefix_of(p: Seq<u8>, s: Seq<u8>) -> bool {
    p.len() <= s.len() && s.take(p.len() as int) == p
}

/// Whether `s` begins with the bytes of `p`.
pub fn bytes_start_with(s: &[u8], p: &[u8]) -> (r: bool)
    ensures
        r == is_prefix_of(p@, s@),
        r == (p@.len() <= s@.len() && forall|i: int| 0 <= i < p@.len() ==> s@[i] == p@[i]),
{
    if p.len() > s.len() {
        return false;
    }
    let n = p.len();
    let mut i: usize = 0;
    while i < n
        invariant
            n == p@.len(),
            n <= s@.len(),
            i <= n,
            forall|j: int| 0 <= j < i ==> s@[j] == p@[j],
        decreases n - i,
    {
        if s[i] != p[i] {
            assert(s@.take(n as int)[i as int] != p@[i as int]);
            assert(!(forall|k: int| 0 <= k < p@.len() ==> s@[k] == p@[k]));
            return false;
        }
        i = i + 1;
    }
    assert(s@.take(n as int) =~= p@);
    true
}

/// `p` is a prefix of `s` exactly when `s` is at least as long and agrees
/// with `p` on each of `p`'s positions.
pub proof fn lemma_prefix_means_positionwise_equal(p: Seq<u8>, s: Seq<u8>)
    ensures
        is_prefix_of(p, s) <==> (p.len() <= s.len() && forall|i: int| 0 <= i < p.len() ==> s[i] == p[i]),
{
    if p.len() <= s.len() && forall|i: int| 0 <= i < p.len() ==> s[i] == p[i] {
        assert(s.take(p.len() as int) =~= p);
    }
    if is_prefix_of(p, s) {
        assert forall|i: int| 0 <= i < p.len() implies s[i] == p[i] by {
            assert(s.take(p.len() as int)[i] == s[i]);
        }
    }
}

/// Whether `a` and `b` hold the same bytes.
pub fn bytes_equal(a: &[u8], b: &[u8]) -> (r: bool)
    ensures
        r == (a@ == b@),
{
    if a.len() != b.len() {
        return false;
    }
    let r = bytes_start_with(a, b);
    assert(a@.take(b@.len() as int) =~= a@);
    r
}

} // verus!
