//! The codec protocol: how a value is written to bytes and read back from the
//! front of a byte cursor.
use vstd::prelude::*;
use crate::bytes::{array_from_slice, array_of, extended, lemma_array_of, lemma_array_of_view};

verus! {

/// A type with a canonical, self-delimiting byte encoding.
///
/// An implementation gives the encoding and the reading of a value as two
/// mathematical functions, proves the two laws that make them inverses of each
/// other, and provides executable functions that compute them.
pub trait Slicable: Sized {
    /// The canonical bytes of a value.
    spec fn encoding(&self) -> Seq<u8>;

    /// What reading one value off the front of `bytes` gives: the value together
    /// with the number of bytes that it takes up, or `None` where `bytes` does not
    /// start with a well-formed, complete value.
    spec fn decoding(bytes: Seq<u8>) -> Option<(Self, nat)>;

    /// Where a read of `bytes` that fails leaves off: the number of bytes that
    /// it has moved past by then. A type that reads several fields has moved past
    /// those that it could read. Of no meaning where the read succeeds.
    spec fn failed_at(bytes: Seq<u8>) -> nat;

    /// A read that fails leaves off inside `bytes`.
    proof fn lemma_failed_at_is_inside(bytes: Seq<u8>)
        ensures
            Self::failed_at(bytes) <= bytes.len(),
    ;

    /// A successful read takes up exactly the encoding of the value that it gives.
    proof fn lemma_decoding_consumes_encoding(bytes: Seq<u8>)
        ensures
            Self::decoding(bytes) matches Some((v, n)) ==> n <= bytes.len() && bytes.take(n as int)
                == v.encoding(),
    ;

    /// Reading the encoding of a value gives that value back and takes up the
    /// whole encoding, whatever bytes follow it.
    proof fn lemma_round_trip(&self, rest: Seq<u8>)
        ensures
            Self::decoding(self.encoding() + rest) == Some((*self, self.encoding().len())),
    ;

    /// Reads one value off the front of the cursor and moves the cursor past it.
    ///
    /// Returns `None` exactly when the bytes under the cursor do not start with a
    /// value. The cursor then stands where the read left off, which depends on
    /// the bytes alone; a caller should give up on those bytes and not go on from
    /// there. Either way the cursor is a later part of the same bytes, and never
    /// longer than before.
    fn from_slice(value: &mut &[u8]) -> (r: Option<Self>)
        ensures
            match Self::decoding(old(value)@) {
                Some((v, n)) => r == Some(v) && final(value)@ == old(value)@.skip(n as int),
                None => r is None && final(value)@ == old(value)@.skip(
                    Self::failed_at(old(value)@) as int,
                ),
            },
            final(value)@.len() <= old(value)@.len(),
    ;

    /// The encoding as an owned vector.
    fn to_vec(&self) -> (v: Vec<u8>)
        ensures
            v@ == self.encoding(),
    {
        let copy = |s: &[u8]| -> (out: Vec<u8>)
            ensures
                out@ == s@,
            {
                vstd::slice::slice_to_vec(s)
            };
        self.as_slice_then(copy)
    }

    /// Runs `f` on a temporary view of the encoding and hands back what `f` returns.
    fn as_slice_then<R, F: FnOnce(&[u8]) -> R>(&self, f: F) -> (r: R)
        requires
            forall|s: &[u8]| s@ == self.encoding() ==> call_requires(f, (s,)),
        ensures
            exists|s: &[u8]| s@ == self.encoding() && call_ensures(f, (s,), r),
    ;
}

/// Marks a type whose encoding is more than its bytes in memory.
pub trait NonTrivialSlicable: Slicable {

}

/// Hands `v` back with the encoding of `item` added at its end.
pub fn append_encoded<T: Slicable>(v: Vec<u8>, item: &T) -> (out: Vec<u8>)
    ensures
        out@ == v@ + item.encoding(),
{
    let grow = move |s: &[u8]| -> (out: Vec<u8>)
        ensures
            out@ == v@ + s@,
        {
            extended(v, s)
        };
    item.as_slice_then(grow)
}

/// Where a read of a `T` leaves a cursor that stood `at` bytes into `bytes`,
/// counted from the start of `bytes`.
pub proof fn lemma_read_at<T: Slicable>(bytes: Seq<u8>, at: nat)
    requires
        at <= bytes.len(),
    ensures
        match T::decoding(bytes.skip(at as int)) {
            Some((_, n)) => at + n <= bytes.len() && bytes.skip(at as int).skip(n as int)
                == bytes.skip((at + n) as int),
            None => at + T::failed_at(bytes.skip(at as int)) <= bytes.len() && bytes.skip(
                at as int,
            ).skip(T::failed_at(bytes.skip(at as int)) as int) == bytes.skip(
                (at + T::failed_at(bytes.skip(at as int))) as int,
            ),
        },
{
    let rest = bytes.skip(at as int);
    T::lemma_decoding_consumes_encoding(rest);
    T::lemma_failed_at_is_inside(rest);
    match T::decoding(rest) {
        Some((_, n)) => {
            assert(rest.skip(n as int) =~= bytes.skip((at + n) as int));
        },
        None => {
            let k = T::failed_at(rest);
            assert(rest.skip(k as int) =~= bytes.skip((at + k) as int));
        },
    }
}

/// Reading the encoding of a value, with nothing after it, gives the value back.
pub proof fn lemma_decode_encode<T: Slicable>(t: T)
    ensures
        T::decoding(t.encoding()) == Some((t, t.encoding().len())),
{
    t.lemma_round_trip(Seq::empty());
    assert(t.encoding() + Seq::<u8>::empty() =~= t.encoding());
}

/// No strict prefix of an encoding can be read as a value.
pub proof fn lemma_truncated_encoding_fails<T: Slicable>(t: T, n: nat)
    requires
        n < t.encoding().len(),
    ensures
        T::decoding(t.encoding().take(n as int)) is None,
{
    let whole = t.encoding();
    let cut = whole.take(n as int);
    if let Some((v, k)) = T::decoding(cut) {
        T::lemma_decoding_consumes_encoding(cut);
        v.lemma_round_trip(whole.skip(k as int));
        assert(v.encoding() + whole.skip(k as int) =~= whole);
        lemma_decode_encode(t);
    }
}

impl Slicable for u8 {
    open spec fn encoding(&self) -> Seq<u8> {
        seq![*self]
    }

    open spec fn decoding(bytes: Seq<u8>) -> Option<(Self, nat)> {
        if bytes.len() >= 1 {
            Some((bytes[0], 1))
        } else {
            None
        }
    }

    /// A read that fails has not moved.
    open spec fn failed_at(bytes: Seq<u8>) -> nat {
        0
    }

    proof fn lemma_failed_at_is_inside(bytes: Seq<u8>) {
    }

    proof fn lemma_decoding_consumes_encoding(bytes: Seq<u8>) {
        if bytes.len() >= 1 {
            assert(bytes.take(1) =~= seq![bytes[0]]);
        }
    }

    proof fn lemma_round_trip(&self, rest: Seq<u8>) {
    }

    fn from_slice(value: &mut &[u8]) -> (r: Option<Self>) {
        let len = value.len();
        if len >= 1 {
            let byte = value[0];
            *value = &value[1..len];
            Some(byte)
        } else {
            None
        }
    }

    fn as_slice_then<R, F: FnOnce(&[u8]) -> R>(&self, f: F) -> (r: R) {
        let bytes = [*self];
        assert(bytes@ =~= self.encoding());
        f(bytes.as_slice())
    }
}

impl Slicable for u64 {
    /// Eight bytes, least significant first.
    open spec fn encoding(&self) -> Seq<u8> {
        vstd::bytes::spec_u64_to_le_bytes(*self)
    }

    open spec fn decoding(bytes: Seq<u8>) -> Option<(Self, nat)> {
        if bytes.len() >= 8 {
            Some((vstd::bytes::spec_u64_from_le_bytes(bytes.take(8)), 8))
        } else {
            None
        }
    }

    /// A read that fails has not moved.
    open spec fn failed_at(bytes: Seq<u8>) -> nat {
        0
    }

    proof fn lemma_failed_at_is_inside(bytes: Seq<u8>) {
    }

    proof fn lemma_decoding_consumes_encoding(bytes: Seq<u8>) {
        vstd::bytes::lemma_auto_spec_u64_to_from_le_bytes();
    }

    proof fn lemma_round_trip(&self, rest: Seq<u8>) {
        vstd::bytes::lemma_auto_spec_u64_to_from_le_bytes();
        assert((self.encoding() + rest).take(8) =~= self.encoding());
    }

    fn from_slice(value: &mut &[u8]) -> (r: Option<Self>) {
        let len = value.len();
        if len >= 8 {
            let x = vstd::bytes::u64_from_le_bytes(&value[0..8]);
            *value = &value[8..len];
            Some(x)
        } else {
            None
        }
    }

    fn as_slice_then<R, F: FnOnce(&[u8]) -> R>(&self, f: F) -> (r: R) {
        let bytes = vstd::bytes::u64_to_le_bytes(*self);
        f(bytes.as_slice())
    }
}

impl<const N: usize> Slicable for [u8; N] {
    /// The bytes of the array, as they stand.
    open spec fn encoding(&self) -> Seq<u8> {
        self@
    }

    open spec fn decoding(bytes: Seq<u8>) -> Option<(Self, nat)> {
        if bytes.len() >= N {
            Some((array_of::<N>(bytes.take(N as int)), N as nat))
        } else {
            None
        }
    }

    /// A read that fails has not moved.
    open spec fn failed_at(bytes: Seq<u8>) -> nat {
        0
    }

    proof fn lemma_failed_at_is_inside(bytes: Seq<u8>) {
    }

    proof fn lemma_decoding_consumes_encoding(bytes: Seq<u8>) {
        if bytes.len() >= N {
            lemma_array_of::<N>(bytes.take(N as int));
        }
    }

    proof fn lemma_round_trip(&self, rest: Seq<u8>) {
        assert((self@ + rest).take(N as int) =~= self@);
        lemma_array_of_view::<N>(*self);
    }

    fn from_slice(value: &mut &[u8]) -> (r: Option<Self>) {
        let len = value.len();
        if len >= N {
            let a = array_from_slice::<N>(&value[0..N]);
            *value = &value[N..len];
            Some(a)
        } else {
            None
        }
    }

    fn as_slice_then<R, F: FnOnce(&[u8]) -> R>(&self, f: F) -> (r: R) {
        f(self.as_slice())
    }
}

} // verus!
