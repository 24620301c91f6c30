//! The operations that a transaction can ask for.
use vstd::prelude::*;
use crate::bytes::bytes_equal;
use crate::codec::{append_encoded, lemma_read_at, Slicable};
use crate::{AccountId, SessionKey, Timestamp};

verus! {

/// Names a variant of [`Function`]. On the wire it is the single byte that
/// every encoded function starts with.
#[derive(Clone, Copy, PartialEq, Eq, Structural, Debug)]
pub enum FunctionId {
    /// Set the timestamp.
    TimestampSet,
    /// Set the session key of a validator.
    SessionSetKey,
    /// Begin staking.
    StakingStake,
    /// Stop staking.
    StakingUnstake,
    /// Transfer stake.
    StakingTransfer,
}

impl FunctionId {
    /// The byte that stands for this variant.
    pub open spec fn tag(self) -> u8 {
        match self {
            FunctionId::TimestampSet => 0x00,
            FunctionId::SessionSetKey => 0x10,
            FunctionId::StakingStake => 0x20,
            FunctionId::StakingUnstake => 0x21,
            FunctionId::StakingTransfer => 0x22,
        }
    }

    /// The variant that `tag` stands for, if it stands for one.
    pub open spec fn of_tag(tag: u8) -> Option<FunctionId> {
        if tag == 0x00 {
            Some(FunctionId::TimestampSet)
        } else if tag == 0x10 {
            Some(FunctionId::SessionSetKey)
        } else if tag == 0x20 {
            Some(FunctionId::StakingStake)
        } else if tag == 0x21 {
            Some(FunctionId::StakingUnstake)
        } else if tag == 0x22 {
            Some(FunctionId::StakingTransfer)
        } else {
            None
        }
    }

    /// The byte that stands for this variant.
    pub fn to_u8(self) -> (tag: u8)
        ensures
            tag == self.tag(),
    {
        match self {
            FunctionId::TimestampSet => 0x00,
            FunctionId::SessionSetKey => 0x10,
            FunctionId::StakingStake => 0x20,
            FunctionId::StakingUnstake => 0x21,
            FunctionId::StakingTransfer => 0x22,
        }
    }

    /// The variant that `tag` stands for, or `None` where it stands for none.
    pub fn from_u8(tag: u8) -> (id: Option<FunctionId>)
        ensures
            id == FunctionId::of_tag(tag),
    {
        match tag {
            0x00 => Some(FunctionId::TimestampSet),
            0x10 => Some(FunctionId::SessionSetKey),
            0x20 => Some(FunctionId::StakingStake),
            0x21 => Some(FunctionId::StakingUnstake),
            0x22 => Some(FunctionId::StakingTransfer),
            _ => None,
        }
    }
}

/// What a transaction asks the ledger to do.
///
/// A function is encoded as the byte of its variant followed by the encodings
/// of the variant's fields, in the order in which they are declared.
#[derive(Eq, Debug)]
pub enum Function {
    /// Set the timestamp.
    TimestampSet(Timestamp),
    /// Set the session key of the signer, a validator.
    SessionSetKey(SessionKey),
    /// Begin staking.
    StakingStake,
    /// Stop staking.
    StakingUnstake,
    /// Transfer an amount of stake to an account.
    StakingTransfer(AccountId, u64),
}

impl Function {
    /// The name of the variant.
    pub open spec fn id(&self) -> FunctionId {
        match self {
            Function::TimestampSet(_) => FunctionId::TimestampSet,
            Function::SessionSetKey(_) => FunctionId::SessionSetKey,
            Function::StakingStake => FunctionId::StakingStake,
            Function::StakingUnstake => FunctionId::StakingUnstake,
            Function::StakingTransfer(_, _) => FunctionId::StakingTransfer,
        }
    }

    /// The encodings of the variant's fields, one after the other.
    pub open spec fn fields_encoding(&self) -> Seq<u8> {
        match self {
            Function::TimestampSet(moment) => moment.encoding(),
            Function::SessionSetKey(key) => key.encoding(),
            Function::StakingStake => Seq::empty(),
            Function::StakingUnstake => Seq::empty(),
            Function::StakingTransfer(to, amount) => to.encoding() + amount.encoding(),
        }
    }

    /// What reading the fields of variant `id` off the front of `bytes` gives.
    pub open spec fn fields_decoding(id: FunctionId, bytes: Seq<u8>) -> Option<(Function, nat)> {
        match id {
            FunctionId::TimestampSet => match Timestamp::decoding(bytes) {
                Some((moment, n)) => Some((Function::TimestampSet(moment), n)),
                None => None,
            },
            FunctionId::SessionSetKey => match SessionKey::decoding(bytes) {
                Some((key, n)) => Some((Function::SessionSetKey(key), n)),
                None => None,
            },
            FunctionId::StakingStake => Some((Function::StakingStake, 0)),
            FunctionId::StakingUnstake => Some((Function::StakingUnstake, 0)),
            FunctionId::StakingTransfer => match AccountId::decoding(bytes) {
                Some((to, n)) => match u64::decoding(bytes.skip(n as int)) {
                    Some((amount, m)) => Some((Function::StakingTransfer(to, amount), n + m)),
                    None => None,
                },
                None => None,
            },
        }
    }
}

impl Function {
    /// Where a failed read of the fields of variant `id` leaves off in `bytes`.
    pub open spec fn fields_failed_at(id: FunctionId, bytes: Seq<u8>) -> nat {
        match id {
            FunctionId::TimestampSet => Timestamp::failed_at(bytes),
            FunctionId::SessionSetKey => SessionKey::failed_at(bytes),
            FunctionId::StakingStake => 0,
            FunctionId::StakingUnstake => 0,
            FunctionId::StakingTransfer => match AccountId::decoding(bytes) {
                Some((_, n)) => n + u64::failed_at(bytes.skip(n as int)),
                None => AccountId::failed_at(bytes),
            },
        }
    }
}

impl Clone for Function {
    fn clone(&self) -> (copy: Self)
        ensures
            copy == *self,
    {
        match self {
            Function::TimestampSet(moment) => Function::TimestampSet(*moment),
            Function::SessionSetKey(key) => Function::SessionSetKey(*key),
            Function::StakingStake => Function::StakingStake,
            Function::StakingUnstake => Function::StakingUnstake,
            Function::StakingTransfer(to, amount) => Function::StakingTransfer(*to, *amount),
        }
    }
}

impl PartialEq for Function {
    fn eq(&self, other: &Self) -> (r: bool) {
        match (self, other) {
            (Function::TimestampSet(a), Function::TimestampSet(b)) => *a == *b,
            (Function::SessionSetKey(a), Function::SessionSetKey(b)) => {
                proof {
                    if a@ == b@ {
                        assert(*a =~= *b);
                    }
                }
                bytes_equal(a.as_slice(), b.as_slice())
            },
            (Function::StakingStake, Function::StakingStake) => true,
            (Function::StakingUnstake, Function::StakingUnstake) => true,
            (Function::StakingTransfer(to_a, a), Function::StakingTransfer(to_b, b)) => {
                proof {
                    if to_a@ == to_b@ {
                        assert(*to_a =~= *to_b);
                    }
                }
                bytes_equal(to_a.as_slice(), to_b.as_slice()) && *a == *b
            },
            _ => false,
        }
    }
}

impl vstd::std_specs::cmp::PartialEqSpecImpl for Function {
    open spec fn obeys_eq_spec() -> bool {
        true
    }

    open spec fn eq_spec(&self, other: &Self) -> bool {
        *self == *other
    }
}

impl Slicable for Function {
    open spec fn encoding(&self) -> Seq<u8> {
        self.id().tag().encoding() + self.fields_encoding()
    }

    open spec fn decoding(bytes: Seq<u8>) -> Option<(Self, nat)> {
        match u8::decoding(bytes) {
            Some((tag, n)) => match FunctionId::of_tag(tag) {
                Some(id) => match Function::fields_decoding(id, bytes.skip(n as int)) {
                    Some((function, m)) => Some((function, n + m)),
                    None => None,
                },
                None => None,
            },
            None => None,
        }
    }

    /// After the tag where the tag names no variant, else where the read of the
    /// fields left off.
    open spec fn failed_at(bytes: Seq<u8>) -> nat {
        match u8::decoding(bytes) {
            Some((tag, n)) => match FunctionId::of_tag(tag) {
                Some(id) => n + Function::fields_failed_at(id, bytes.skip(n as int)),
                None => n,
            },
            None => u8::failed_at(bytes),
        }
    }

    proof fn lemma_failed_at_is_inside(bytes: Seq<u8>) {
        if let Some((tag, n)) = u8::decoding(bytes) {
            if FunctionId::of_tag(tag) == Some(FunctionId::StakingTransfer) {
                AccountId::lemma_decoding_consumes_encoding(bytes.skip(1));
            }
        }
    }

    proof fn lemma_decoding_consumes_encoding(bytes: Seq<u8>) {
        if let Some((function, total)) = Function::decoding(bytes) {
            let tag = bytes[0];
            let id = FunctionId::of_tag(tag).unwrap();
            let rest = bytes.skip(1);
            let m = (total - 1) as nat;
            assert(bytes.take(1) =~= tag.encoding());
            match id {
                FunctionId::TimestampSet => {
                    Timestamp::lemma_decoding_consumes_encoding(rest);
                },
                FunctionId::SessionSetKey => {
                    SessionKey::lemma_decoding_consumes_encoding(rest);
                },
                FunctionId::StakingStake => {},
                FunctionId::StakingUnstake => {},
                FunctionId::StakingTransfer => {
                    AccountId::lemma_decoding_consumes_encoding(rest);
                    let n = AccountId::decoding(rest).unwrap().1;
                    u64::lemma_decoding_consumes_encoding(rest.skip(n as int));
                    let k = u64::decoding(rest.skip(n as int)).unwrap().1;
                    assert(rest.take((n + k) as int) =~= rest.take(n as int) + rest.skip(
                        n as int,
                    ).take(k as int));
                },
            }
            assert(rest.take(m as int) == function.fields_encoding());
            assert(bytes.take(total as int) =~= bytes.take(1) + rest.take(m as int));
        }
    }

    proof fn lemma_round_trip(&self, rest: Seq<u8>) {
        let tag = self.id().tag();
        let fields = self.fields_encoding();
        let bytes = self.encoding() + rest;
        assert(bytes.skip(1) =~= fields + rest);
        match *self {
            Function::TimestampSet(moment) => {
                moment.lemma_round_trip(rest);
            },
            Function::SessionSetKey(key) => {
                key.lemma_round_trip(rest);
            },
            Function::StakingStake => {},
            Function::StakingUnstake => {},
            Function::StakingTransfer(to, amount) => {
                to.lemma_round_trip(amount.encoding() + rest);
                amount.lemma_round_trip(rest);
                assert(fields + rest =~= to.encoding() + (amount.encoding() + rest));
                assert((fields + rest).skip(to.encoding().len() as int) =~= amount.encoding()
                    + rest);
            },
        }
    }

    fn from_slice(value: &mut &[u8]) -> (r: Option<Self>) {
        let tag = u8::from_slice(value)?;
        let id = FunctionId::from_u8(tag)?;
        proof {
            lemma_read_at::<Timestamp>(old(value)@, 1);
            lemma_read_at::<SessionKey>(old(value)@, 1);
        }
        let function = match id {
            FunctionId::TimestampSet => Function::TimestampSet(Timestamp::from_slice(value)?),
            FunctionId::SessionSetKey => Function::SessionSetKey(SessionKey::from_slice(value)?),
            FunctionId::StakingStake => Function::StakingStake,
            FunctionId::StakingUnstake => Function::StakingUnstake,
            FunctionId::StakingTransfer => {
                let to = AccountId::from_slice(value)?;
                proof {
                    let taken = AccountId::decoding(old(value)@.skip(1)).unwrap().1;
                    lemma_read_at::<u64>(old(value)@, 1 + taken);
                }
                let amount = u64::from_slice(value)?;
                Function::StakingTransfer(to, amount)
            },
        };
        Some(function)
    }

    fn to_vec(&self) -> (v: Vec<u8>) {
        let v = Vec::new();
        match self {
            Function::TimestampSet(moment) => {
                let v = append_encoded(v, &FunctionId::TimestampSet.to_u8());
                append_encoded(v, moment)
            },
            Function::SessionSetKey(key) => {
                let v = append_encoded(v, &FunctionId::SessionSetKey.to_u8());
                append_encoded(v, key)
            },
            Function::StakingStake => append_encoded(v, &FunctionId::StakingStake.to_u8()),
            Function::StakingUnstake => append_encoded(v, &FunctionId::StakingUnstake.to_u8()),
            Function::StakingTransfer(to, amount) => {
                let v = append_encoded(v, &FunctionId::StakingTransfer.to_u8());
                let v = append_encoded(v, to);
                append_encoded(v, amount)
            },
        }
    }

    fn as_slice_then<R, F: FnOnce(&[u8]) -> R>(&self, f: F) -> (r: R) {
        f(self.to_vec().as_slice())
    }
}

} // verus!
