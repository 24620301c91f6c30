//! The transaction record and its signed wrapper.
use vstd::prelude::*;
use vstd::std_specs::cmp::PartialEqSpec;
use vstd::string::StringExecFns;
use crate::bytes::bytes_equal;
use crate::codec::{
    append_encoded, lemma_decode_encode, lemma_read_at, lemma_truncated_encoding_fails,
    NonTrivialSlicable, Slicable,
};
use crate::runtime_function::Function;
use crate::{AccountId, Signature, TxOrder};

verus! {

/// A transaction as its signer meant it: who sends it, which of the signer's
/// transactions it is, and what it asks for.
///
/// Its encoding is the encodings of the three fields in the order signer, nonce,
/// function, with nothing before, between or after them.
#[derive(Eq, Debug)]
pub struct Transaction {
    /// Who signed it (note this is not a signature).
    pub signed: AccountId,
    /// The number of transactions that have come before from the same signer.
    pub nonce: TxOrder,
    /// The function that should be called.
    pub function: Function,
}

impl Clone for Transaction {
    fn clone(&self) -> (copy: Self)
        ensures
            copy == *self,
    {
        Transaction { signed: self.signed, nonce: self.nonce, function: self.function.clone() }
    }
}

impl PartialEq for Transaction {
    fn eq(&self, other: &Self) -> (r: bool) {
        proof {
            if self.signed@ == other.signed@ {
                assert(self.signed =~= other.signed);
            }
        }
        bytes_equal(self.signed.as_slice(), other.signed.as_slice()) && self.nonce == other.nonce
            && self.function == other.function
    }
}

impl vstd::std_specs::cmp::PartialEqSpecImpl for Transaction {
    open spec fn obeys_eq_spec() -> bool {
        true
    }

    /// Two transactions are equal when their three fields are.
    open spec fn eq_spec(&self, other: &Self) -> bool {
        *self == *other
    }
}

impl Slicable for Transaction {
    open spec fn encoding(&self) -> Seq<u8> {
        self.signed.encoding() + self.nonce.encoding() + self.function.encoding()
    }

    open spec fn decoding(bytes: Seq<u8>) -> Option<(Self, nat)> {
        match AccountId::decoding(bytes) {
            Some((signed, a)) => match TxOrder::decoding(bytes.skip(a as int)) {
                Some((nonce, b)) => match Function::decoding(bytes.skip((a + b) as int)) {
                    Some((function, c)) => Some(
                        (Transaction { signed, nonce, function }, a + b + c),
                    ),
                    None => None,
                },
                None => None,
            },
            None => None,
        }
    }

    /// After the fields that could be read, where the read of the next one left
    /// off.
    open spec fn failed_at(bytes: Seq<u8>) -> nat {
        match AccountId::decoding(bytes) {
            Some((_, a)) => match TxOrder::decoding(bytes.skip(a as int)) {
                Some((_, b)) => a + b + Function::failed_at(bytes.skip((a + b) as int)),
                None => a + TxOrder::failed_at(bytes.skip(a as int)),
            },
            None => AccountId::failed_at(bytes),
        }
    }

    proof fn lemma_failed_at_is_inside(bytes: Seq<u8>) {
        lemma_read_at::<AccountId>(bytes, 0);
        assert(bytes.skip(0) =~= bytes);
        if let Some((_, a)) = AccountId::decoding(bytes) {
            lemma_read_at::<TxOrder>(bytes, a);
            if let Some((_, b)) = TxOrder::decoding(bytes.skip(a as int)) {
                lemma_read_at::<Function>(bytes, a + b);
                Function::lemma_failed_at_is_inside(bytes.skip((a + b) as int));
            }
        }
    }

    proof fn lemma_decoding_consumes_encoding(bytes: Seq<u8>) {
        if let Some((transaction, total)) = Transaction::decoding(bytes) {
            AccountId::lemma_decoding_consumes_encoding(bytes);
            let a = AccountId::decoding(bytes).unwrap().1;
            TxOrder::lemma_decoding_consumes_encoding(bytes.skip(a as int));
            let b = TxOrder::decoding(bytes.skip(a as int)).unwrap().1;
            Function::lemma_decoding_consumes_encoding(bytes.skip((a + b) as int));
            let c = Function::decoding(bytes.skip((a + b) as int)).unwrap().1;
            assert(bytes.take(total as int) =~= bytes.take(a as int) + bytes.skip(a as int).take(
                b as int,
            ) + bytes.skip((a + b) as int).take(c as int));
        }
    }

    proof fn lemma_round_trip(&self, rest: Seq<u8>) {
        let signed = self.signed.encoding();
        let nonce = self.nonce.encoding();
        let function = self.function.encoding();
        let bytes = self.encoding() + rest;
        self.signed.lemma_round_trip(nonce + function + rest);
        self.nonce.lemma_round_trip(function + rest);
        self.function.lemma_round_trip(rest);
        assert(bytes =~= signed + (nonce + function + rest));
        assert(bytes.skip(signed.len() as int) =~= nonce + (function + rest));
        assert(bytes.skip((signed.len() + nonce.len()) as int) =~= function + rest);
    }

    fn from_slice(value: &mut &[u8]) -> (r: Option<Self>) {
        let signed = AccountId::from_slice(value)?;
        let ghost a = AccountId::decoding(old(value)@).unwrap().1;
        proof {
            AccountId::lemma_decoding_consumes_encoding(old(value)@);
            lemma_read_at::<TxOrder>(old(value)@, a);
        }
        let nonce = TxOrder::from_slice(value)?;
        let ghost b = TxOrder::decoding(old(value)@.skip(a as int)).unwrap().1;
        proof {
            lemma_read_at::<Function>(old(value)@, a + b);
        }
        let function = Function::from_slice(value)?;
        Some(Transaction { signed, nonce, function })
    }

    fn to_vec(&self) -> (v: Vec<u8>) {
        let v = Vec::new();
        let v = append_encoded(v, &self.signed);
        let v = append_encoded(v, &self.nonce);
        let v = append_encoded(v, &self.function);
        v
    }

    fn as_slice_then<R, F: FnOnce(&[u8]) -> R>(&self, f: F) -> (r: R) {
        f(self.to_vec().as_slice())
    }
}

/// A transaction together with a signature, as it arrives from outside.
/// Whether the signature is valid is not looked at here.
///
/// Its encoding is that of the transaction's three fields followed by that of
/// the signature.
#[derive(Eq)]
pub struct UncheckedTransaction {
    /// The actual transaction information.
    pub transaction: Transaction,
    /// The signature; meant to be a signature over the encoded `transaction`.
    pub signature: Signature,
}

impl Clone for UncheckedTransaction {
    fn clone(&self) -> (copy: Self)
        ensures
            copy == *self,
    {
        UncheckedTransaction { transaction: self.transaction.clone(), signature: self.signature }
    }
}

impl Slicable for UncheckedTransaction {
    open spec fn encoding(&self) -> Seq<u8> {
        self.transaction.signed.encoding() + self.transaction.nonce.encoding()
            + self.transaction.function.encoding() + self.signature.encoding()
    }

    open spec fn decoding(bytes: Seq<u8>) -> Option<(Self, nat)> {
        match Transaction::decoding(bytes) {
            Some((transaction, n)) => match Signature::decoding(bytes.skip(n as int)) {
                Some((signature, m)) => Some(
                    (UncheckedTransaction { transaction, signature }, n + m),
                ),
                None => None,
            },
            None => None,
        }
    }

    /// Where the read of the transaction left off, or after the transaction
    /// where the read of the signature left off.
    open spec fn failed_at(bytes: Seq<u8>) -> nat {
        match Transaction::decoding(bytes) {
            Some((_, n)) => n + Signature::failed_at(bytes.skip(n as int)),
            None => Transaction::failed_at(bytes),
        }
    }

    proof fn lemma_failed_at_is_inside(bytes: Seq<u8>) {
        Transaction::lemma_failed_at_is_inside(bytes);
        if let Some((_, n)) = Transaction::decoding(bytes) {
            Transaction::lemma_decoding_consumes_encoding(bytes);
            lemma_read_at::<Signature>(bytes, n);
            Signature::lemma_failed_at_is_inside(bytes.skip(n as int));
        }
    }

    proof fn lemma_decoding_consumes_encoding(bytes: Seq<u8>) {
        if let Some((unchecked, total)) = UncheckedTransaction::decoding(bytes) {
            Transaction::lemma_decoding_consumes_encoding(bytes);
            let n = Transaction::decoding(bytes).unwrap().1;
            Signature::lemma_decoding_consumes_encoding(bytes.skip(n as int));
            let m = Signature::decoding(bytes.skip(n as int)).unwrap().1;
            assert(bytes.take(total as int) =~= bytes.take(n as int) + bytes.skip(n as int).take(
                m as int,
            ));
        }
    }

    proof fn lemma_round_trip(&self, rest: Seq<u8>) {
        let transaction = self.transaction.encoding();
        let signature = self.signature.encoding();
        let bytes = self.encoding() + rest;
        self.transaction.lemma_round_trip(signature + rest);
        self.signature.lemma_round_trip(rest);
        assert(bytes =~= transaction + (signature + rest));
        assert(bytes.skip(transaction.len() as int) =~= signature + rest);
    }

    fn from_slice(value: &mut &[u8]) -> (r: Option<Self>) {
        let transaction = Transaction::from_slice(value)?;
        proof {
            let n = Transaction::decoding(old(value)@).unwrap().1;
            Transaction::lemma_decoding_consumes_encoding(old(value)@);
            lemma_read_at::<Signature>(old(value)@, n);
        }
        let signature = Signature::from_slice(value)?;
        Some(UncheckedTransaction { transaction, signature })
    }

    fn to_vec(&self) -> (v: Vec<u8>) {
        let v = Vec::new();
        let v = append_encoded(v, &self.transaction.signed);
        let v = append_encoded(v, &self.transaction.nonce);
        let v = append_encoded(v, &self.transaction.function);
        let v = append_encoded(v, &self.signature);
        v
    }

    fn as_slice_then<R, F: FnOnce(&[u8]) -> R>(&self, f: F) -> (r: R) {
        f(self.to_vec().as_slice())
    }
}

impl NonTrivialSlicable for UncheckedTransaction {

}

impl PartialEq for UncheckedTransaction {
    fn eq(&self, other: &Self) -> (r: bool) {
        bytes_equal(self.signature.0.as_slice(), other.signature.0.as_slice()) && self.transaction
            == other.transaction
    }
}

impl vstd::std_specs::cmp::PartialEqSpecImpl for UncheckedTransaction {
    open spec fn obeys_eq_spec() -> bool {
        true
    }

    /// Two wrappers are equal when their signatures hold the same bytes in the
    /// same order and their transactions are equal.
    open spec fn eq_spec(&self, other: &Self) -> bool {
        self.signature.0@ == other.signature.0@ && self.transaction == other.transaction
    }
}

/// The text that formatting a transaction with `{:?}` gives.
pub uninterp spec fn debug_text(transaction: Transaction) -> Seq<char>;

/// Formats a transaction with `format!` and `{:?}`, that is with the `Debug`
/// impl that `derive` wrote for [`Transaction`]. The contract only gives the
/// text its name: it is the same text whenever the transaction is the same.
#[verifier::external_body]
fn format_debug(transaction: &Transaction) -> (text: String)
    ensures
        text@ == debug_text(*transaction),
{
    format!("{:?}", transaction)
}

/// Puts the rendering of a transaction between `UncheckedTransaction(` and `)`.
pub fn render_unchecked(transaction_text: &str) -> (text: String)
    ensures
        text@ == "UncheckedTransaction("@ + transaction_text@ + ")"@,
{
    let mut text = String::from_str("UncheckedTransaction(");
    text.append(transaction_text);
    text.append(")");
    text
}

impl UncheckedTransaction {
    /// A human-readable rendering. It shows the transaction, as `{:?}` does, and
    /// leaves the signature out.
    pub fn debug_string(&self) -> (text: String)
        ensures
            text@ == "UncheckedTransaction("@ + debug_text(self.transaction) + ")"@,
    {
        render_unchecked(format_debug(&self.transaction).as_str())
    }
}

/// std's formatter, the sink that a `Debug` impl writes to.
#[verifier::external_type_specification]
#[verifier::external_body]
pub struct ExFormatter<'a>(core::fmt::Formatter<'a>);

/// std's formatting error.
#[verifier::external_type_specification]
#[verifier::external_body]
pub struct ExFmtError(core::fmt::Error);

/// The text that the buffer under a formatter has taken so far.
pub uninterp spec fn written(f: core::fmt::Formatter<'_>) -> Seq<char>;

/// `Formatter::write_str` hands the text to the buffer under the formatter.
/// Where it returns `Ok`, the buffer has taken all of the text, after what it
/// held before. Nothing is claimed of when it returns `Ok`, nor of the buffer
/// where it does not.
pub assume_specification<'a>[ core::fmt::Formatter::<'a>::write_str ](
    f: &mut core::fmt::Formatter<'a>,
    data: &str,
) -> (r: core::fmt::Result)
    ensures
        r is Ok ==> written(*final(f)) == written(*old(f)) + data@,
;

impl core::fmt::Debug for UncheckedTransaction {
    /// Writes the rendering that [`UncheckedTransaction::debug_string`] gives,
    /// and hands back what the formatter answered.
    fn fmt(&self, f: &mut core::fmt::Formatter<'_>) -> (r: core::fmt::Result)
        ensures
            r is Ok ==> written(*final(f)) == written(*old(f)) + "UncheckedTransaction("@
                + debug_text(self.transaction) + ")"@,
    {
        f.write_str(self.debug_string().as_str())
    }
}

/// Reading the encoding of a transaction gives the transaction back and takes
/// up all of the encoding.
pub proof fn lemma_transaction_round_trip(transaction: Transaction)
    ensures
        Transaction::decoding(transaction.encoding()) == Some(
            (transaction, transaction.encoding().len()),
        ),
{
    lemma_decode_encode(transaction);
}

/// Reading the encoding of a signed wrapper gives the wrapper back and takes up
/// all of the encoding.
pub proof fn lemma_unchecked_round_trip(unchecked: UncheckedTransaction)
    ensures
        UncheckedTransaction::decoding(unchecked.encoding()) == Some(
            (unchecked, unchecked.encoding().len()),
        ),
{
    lemma_decode_encode(unchecked);
}

/// The encoding of a signed wrapper is the encoding of its transaction followed
/// by that of its signature, so it starts with exactly the bytes that the
/// transaction alone encodes to.
pub proof fn lemma_unchecked_starts_with_transaction(unchecked: UncheckedTransaction)
    ensures
        unchecked.encoding() == unchecked.transaction.encoding() + unchecked.signature.encoding(),
        unchecked.transaction.encoding().len() <= unchecked.encoding().len(),
        unchecked.encoding().take(unchecked.transaction.encoding().len() as int)
            == unchecked.transaction.encoding(),
{
    let transaction = unchecked.transaction.encoding();
    let signature = unchecked.signature.encoding();
    assert((transaction + signature).take(transaction.len() as int) =~= transaction);
}

/// No strict prefix of the encoding of a transaction can be read as a
/// transaction.
pub proof fn lemma_truncated_transaction_fails(transaction: Transaction, n: nat)
    requires
        n < transaction.encoding().len(),
    ensures
        Transaction::decoding(transaction.encoding().take(n as int)) is None,
{
    lemma_truncated_encoding_fails(transaction, n);
}

/// No strict prefix of the encoding of a signed wrapper can be read as a signed
/// wrapper.
pub proof fn lemma_truncated_unchecked_fails(unchecked: UncheckedTransaction, n: nat)
    requires
        n < unchecked.encoding().len(),
    ensures
        UncheckedTransaction::decoding(unchecked.encoding().take(n as int)) is None,
{
    lemma_truncated_encoding_fails(unchecked, n);
}

/// Two signed wrappers compare equal exactly when they are the same value.
pub proof fn lemma_unchecked_eq_is_identity(a: UncheckedTransaction, b: UncheckedTransaction)
    ensures
        a.eq_spec(&b) <==> a == b,
{
    if a.signature.0@ == b.signature.0@ {
        assert(a.signature.0 =~= b.signature.0);
    }
}

/// A signed wrapper built from its fields and the one read back from its
/// encoding compare equal, in either order.
pub proof fn lemma_decoded_unchecked_equals_built(unchecked: UncheckedTransaction)
    ensures
        UncheckedTransaction::decoding(unchecked.encoding()) matches Some((decoded, _))
            && unchecked.eq_spec(&decoded) && decoded.eq_spec(&unchecked),
{
    lemma_decode_encode(unchecked);
}

} // verus!
