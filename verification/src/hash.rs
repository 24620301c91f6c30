//! Fixed-size opaque byte values.
use vstd::prelude::*;
use crate::bytes::bytes_equal;
use crate::codec::Slicable;

verus! {

/// A value of 64 bytes, such as a signature. The bytes carry no structure here.
#[derive(Clone, Copy, Eq, Debug)]
pub struct H512(pub [u8; 64]);

impl PartialEq for H512 {
    fn eq(&self, other: &Self) -> (r: bool) {
        proof {
            if self.0@ == other.0@ {
                assert(self.0 =~= other.0);
            }
        }
        bytes_equal(self.0.as_slice(), other.0.as_slice())
    }
}

impl vstd::std_specs::cmp::PartialEqSpecImpl for H512 {
    open spec fn obeys_eq_spec() -> bool {
        true
    }

    open spec fn eq_spec(&self, other: &Self) -> bool {
        *self == *other
    }
}

impl Slicable for H512 {
    /// The 64 bytes, as they stand.
    open spec fn encoding(&self) -> Seq<u8> {
        self.0@
    }

    open spec fn decoding(bytes: Seq<u8>) -> Option<(Self, nat)> {
        match <[u8; 64]>::decoding(bytes) {
            Some((a, n)) => Some((H512(a), n)),
            None => None,
        }
    }

    /// A read that fails has not moved.
    open spec fn failed_at(bytes: Seq<u8>) -> nat {
        <[u8; 64]>::failed_at(bytes)
    }

    proof fn lemma_failed_at_is_inside(bytes: Seq<u8>) {
    }

    proof fn lemma_decoding_consumes_encoding(bytes: Seq<u8>) {
        <[u8; 64]>::lemma_decoding_consumes_encoding(bytes);
    }

    proof fn lemma_round_trip(&self, rest: Seq<u8>) {
        self.0.lemma_round_trip(rest);
    }

    fn from_slice(value: &mut &[u8]) -> (r: Option<Self>) {
        match <[u8; 64]>::from_slice(value) {
            Some(a) => Some(H512(a)),
            None => None,
        }
    }

    fn as_slice_then<R, F: FnOnce(&[u8]) -> R>(&self, f: F) -> (r: R) {
        f(self.0.as_slice())
    }
}

} // verus!
