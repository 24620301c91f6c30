//! Helpers on byte slices, byte vectors and fixed-size byte arrays.
use vstd::prelude::*;

verus! {

/// The array that holds exactly the bytes of `s`, for an `s` of length `N`.
pub open spec fn array_of<const N: usize>(s: Seq<u8>) -> [u8; N] {
    choose|a: [u8; N]| a@ == s
}

/// An array whose first `k` bytes are those of `s`.
proof fn array_with_prefix<const N: usize>(s: Seq<u8>, k: nat) -> (a: [u8; N])
    requires
        s.len() == N,
        k <= N,
    ensures
        forall|i: int| 0 <= i < k ==> a@[i] == s[i],
    decreases k,
{
    if k == 0 {
        vstd::array::spec_array_fill_for_copy_type::<u8, N>(0u8)
    } else {
        let shorter = array_with_prefix::<N>(s, (k - 1) as nat);
        vstd::array::spec_array_update(shorter, k - 1, s[k - 1])
    }
}

/// Every sequence of `N` bytes is the content of some array, and `array_of` names it.
pub proof fn lemma_array_of<const N: usize>(s: Seq<u8>)
    requires
        s.len() == N,
    ensures
        array_of::<N>(s)@ == s,
{
    let a = array_with_prefix::<N>(s, N as nat);
    assert(a@ =~= s);
}

/// An array is determined by its bytes.
pub proof fn lemma_array_of_view<const N: usize>(a: [u8; N])
    ensures
        array_of::<N>(a@) == a,
{
    lemma_array_of::<N>(a@);
    assert(array_of::<N>(a@) =~= a);
}

/// Copies a slice of `N` bytes into an array.
pub(crate) fn array_from_slice<const N: usize>(s: &[u8]) -> (a: [u8; N])
    requires
        s@.len() == N,
    ensures
        a@ == s@,
        a == array_of::<N>(s@),
{
    let mut a = [0u8; N];
    let mut i: usize = 0;
    while i < N
        invariant
            i <= N,
            s@.len() == N,
            forall|j: int| 0 <= j < i ==> a@[j] == s@[j],
        decreases N - i,
    {
        a[i] = s[i];
        i += 1;
    }
    proof {
        assert(a@ =~= s@);
        lemma_array_of_view::<N>(a);
    }
    a
}

/// Whether two slices hold the same bytes in the same order.
pub fn bytes_equal(a: &[u8], b: &[u8]) -> (r: bool)
    ensures
        r == (a@ == b@),
{
    if a.len() != b.len() {
        return false;
    }
    let mut i: usize = 0;
    while i < a.len()
        invariant
            i <= a.len(),
            a.len() == b.len(),
            forall|j: int| 0 <= j < i ==> a@[j] == b@[j],
        decreases a.len() - i,
    {
        if a[i] != b[i] {
            return false;
        }
        i += 1;
    }
    assert(a@ =~= b@);
    true
}

/// Hands `v` back with the bytes of `s` added at its end.
pub fn extended(v: Vec<u8>, s: &[u8]) -> (out: Vec<u8>)
    ensures
        out@ == v@ + s@,
{
    let mut out = v;
    out.extend_from_slice(s);
    out
}

} // verus!
