//! Where the initiating contract keeps a transfer, and how the stored record is written.
use vstd::prelude::*;

use crate::rlp;
use crate::types::{BridgeTransferDetails, BridgeTransferId, EthAddress, EthHash};
use crate::types::{Amount, HashLock, InitiatorAddress, RecipientAddress, TimeLock};
use crate::uint;
use crate::uint::U256;

verus! {

/// The hash that `keccak_hash::keccak` gives for `data`.
pub uninterp spec fn keccak256(data: Seq<u8>) -> Seq<u8>;

/// Calls `keccak_hash::keccak`: the 32 bytes depend on `data` alone, and are named
/// `keccak256`.
#[verifier::external_body]
pub(crate) fn keccak(data: &[u8]) -> (hash: [u8; 32])
    ensures
        hash@ == keccak256(data@),
{
    keccak_hash::keccak(data).0
}

/// What is hashed for the entry `key` of the mapping in slot `mapping_slot`: the two of them
/// as an RLP list.
pub open spec fn slot_key(key: Seq<u8>, mapping_slot: nat) -> Seq<u8> {
    rlp::rlp_list(rlp::rlp_string(key) + rlp::rlp_uint(mapping_slot))
}

/// Different entries hash different bytes: what is hashed determines the key and the slot of
/// the mapping.
pub proof fn law_slot_keys_differ(key1: Seq<u8>, slot1: U256, key2: Seq<u8>, slot2: U256)
    requires
        key1.len() == 32,
        key2.len() == 32,
        slot_key(key1, slot1@) == slot_key(key2, slot2@),
    ensures
        key1 == key2,
        slot1@ == slot2@,
{
    let rest1: Seq<u8> = rlp::rlp_uint(slot1@);
    let rest2: Seq<u8> = rlp::rlp_uint(slot2@);
    let payload1: Seq<u8> = rlp::rlp_string(key1) + rest1;
    let payload2: Seq<u8> = rlp::rlp_string(key2) + rest2;
    lemma_word_fits(slot1);
    lemma_word_fits(slot2);
    rlp::lemma_header_unique(true, payload1.len(), payload1, true, payload2.len(), payload2);
    rlp::lemma_string_unique(key1, rest1, key2, rest2);
    assert(rest1 =~= rest1 + Seq::<u8>::empty());
    assert(rest2 =~= rest2 + Seq::<u8>::empty());
    rlp::lemma_uint_unique(slot1@, Seq::empty(), slot2@, Seq::empty());
}

/// What is hashed for an entry, byte by byte: the header of a list, `0xa0`, the 32 bytes of the
/// key in their order, and the number of the slot.
pub proof fn law_slot_key_bytes(key: Seq<u8>, slot: U256)
    requires
        key.len() == 32,
    ensures
        slot@ == 0 ==> slot_key(key, slot@) == seq![0xE2u8, 0xA0u8] + key + seq![0x80u8],
        0 < slot@ < 0x80 ==> slot_key(key, slot@) == seq![0xE2u8, 0xA0u8] + key + seq![slot@ as u8],
        rlp::rlp_uint(slot@).len() < 23 ==> slot_key(key, slot@) == seq![
            (0xE1 + rlp::rlp_uint(slot@).len()) as u8,
            0xA0u8,
        ] + key + rlp::rlp_uint(slot@),
        rlp::rlp_uint(slot@).len() >= 23 ==> slot_key(key, slot@) == seq![
            0xF8u8,
            (33 + rlp::rlp_uint(slot@).len()) as u8,
            0xA0u8,
        ] + key + rlp::rlp_uint(slot@),
{
    let number: Seq<u8> = rlp::rlp_uint(slot@);
    uint::lemma_be_nat_bound(slot.0@);
    rlp::law_number_bytes(slot@);
    rlp::law_string_bytes(key);
    let payload: Seq<u8> = rlp::rlp_string(key) + number;
    assert(payload.len() == 33 + number.len());
    rlp::law_header_bytes(true, payload.len());
    if number.len() < 23 {
        assert(slot_key(key, slot@) =~= seq![(0xE1 + number.len()) as u8, 0xA0u8] + key + number);
    } else {
        assert(slot_key(key, slot@) =~= seq![0xF8u8, (33 + number.len()) as u8, 0xA0u8] + key
            + number);
    }
}

/// A 256-bit number takes at most 32 bytes.
proof fn lemma_word_fits(word: U256)
    ensures
        uint::be_bytes(word@).len() <= 32,
{
    uint::lemma_be_nat_bound(word.0@);
    uint::lemma_be_bytes_len(word@, 32);
}

/// The record that the contract keeps of a transfer.
#[derive(Clone, Copy, Debug, PartialEq, Eq)]
pub struct EthBridgeTransferDetails {
    pub amount: U256,
    pub originator: EthAddress,
    pub recipient: [u8; 32],
    pub hash_lock: [u8; 32],
    pub time_lock: U256,
    pub state: u8,
}

/// Why bytes are no record of a transfer.
#[derive(Debug, PartialEq, Eq)]
pub enum DetailsError {
    /// The list header or one of the fields could not be read.
    Rlp(alloy_rlp::Error),
    /// The bytes hold a string in place of a list.
    UnexpectedString,
    /// The fields take `got` bytes, where the list header announces `expected`.
    ListLengthMismatch { expected: usize, got: usize },
}

impl EthBridgeTransferDetails {
    /// The fields, written one after the other.
    pub open spec fn payload(self) -> Seq<u8> {
        rlp::rlp_uint(self.amount@) + self.after_amount()
    }

    /// The fields behind the amount.
    pub open spec fn after_amount(self) -> Seq<u8> {
        rlp::rlp_string(self.originator.0@) + self.after_originator()
    }

    /// The fields behind the originator.
    pub open spec fn after_originator(self) -> Seq<u8> {
        rlp::rlp_string(self.recipient@) + self.after_recipient()
    }

    /// The fields behind the recipient.
    pub open spec fn after_recipient(self) -> Seq<u8> {
        rlp::rlp_string(self.hash_lock@) + self.after_hash_lock()
    }

    /// The fields behind the hash lock.
    pub open spec fn after_hash_lock(self) -> Seq<u8> {
        rlp::rlp_uint(self.time_lock@) + rlp::rlp_uint(self.state as nat)
    }

    /// The record as an RLP list of its fields.
    pub open spec fn rlp(self) -> Seq<u8> {
        rlp::rlp_list(self.payload())
    }

    /// Appends the record to `out`.
    pub fn encode(&self, out: &mut Vec<u8>)
        ensures
            final(out)@ == old(out)@ + self.rlp(),
            final(out)@ == old(out)@ + (seq![0xF8u8, (self.rlp().len() - 2) as u8] + (rlp::rlp_uint(
                uint::be_nat(self.amount.0@),
            ) + ((seq![0x94u8] + self.originator.0@) + ((seq![0xA0u8] + self.recipient@) + ((
            seq![0xA0u8] + self.hash_lock@) + (rlp::rlp_uint(uint::be_nat(self.time_lock.0@))
                + rlp::rlp_uint(self.state as nat))))))),
    {
        proof {
            law_record_bytes(*self);
        }
        let mut payload: Vec<u8> = Vec::new();
        rlp::write_u256(&self.amount.0, &mut payload);
        rlp::write_address(&self.originator.0, &mut payload);
        rlp::write_bytes32(&self.recipient, &mut payload);
        rlp::write_bytes32(&self.hash_lock, &mut payload);
        rlp::write_u256(&self.time_lock.0, &mut payload);
        rlp::write_u8(self.state, &mut payload);
        assert(payload@ =~= self.payload());
        rlp::write_header(true, payload.len(), out);
        let ghost written: Seq<u8> = out@;
        out.append(&mut payload);
        assert(out@ =~= written + self.payload());
        assert(out@ =~= old(out)@ + self.rlp());
    }

    /// The amount is read off the front of the fields, and nothing else is.
    proof fn lemma_take_amount(self, tail: Seq<u8>, amount: U256, rest: Seq<u8>)
        requires
            self.payload() + tail == rlp::rlp_uint(amount@) + rest,
        ensures
            self.amount@ == amount@,
            rest == self.after_amount() + tail,
    {
        lemma_word_fits(self.amount);
        lemma_word_fits(amount);
        assert(self.payload() + tail =~= rlp::rlp_uint(self.amount@) + (self.after_amount()
            + tail));
        rlp::lemma_uint_unique(self.amount@, self.after_amount() + tail, amount@, rest);
    }

    /// The originator is read off the front of what follows the amount.
    proof fn lemma_take_originator(self, tail: Seq<u8>, originator: Seq<u8>, rest: Seq<u8>)
        requires
            originator.len() == 20,
            self.after_amount() + tail == rlp::rlp_string(originator) + rest,
        ensures
            self.originator.0@ == originator,
            rest == self.after_originator() + tail,
    {
        assert(self.after_amount() + tail =~= rlp::rlp_string(self.originator.0@) + (
        self.after_originator() + tail));
        rlp::lemma_string_unique(
            self.originator.0@,
            self.after_originator() + tail,
            originator,
            rest,
        );
    }

    /// The recipient is read off the front of what follows the originator.
    proof fn lemma_take_recipient(self, tail: Seq<u8>, recipient: Seq<u8>, rest: Seq<u8>)
        requires
            recipient.len() == 32,
            self.after_originator() + tail == rlp::rlp_string(recipient) + rest,
        ensures
            self.recipient@ == recipient,
            rest == self.after_recipient() + tail,
    {
        assert(self.after_originator() + tail =~= rlp::rlp_string(self.recipient@) + (
        self.after_recipient() + tail));
        rlp::lemma_string_unique(self.recipient@, self.after_recipient() + tail, recipient, rest);
    }

    /// The hash lock is read off the front of what follows the recipient.
    proof fn lemma_take_hash_lock(self, tail: Seq<u8>, hash_lock: Seq<u8>, rest: Seq<u8>)
        requires
            hash_lock.len() == 32,
            self.after_recipient() + tail == rlp::rlp_string(hash_lock) + rest,
        ensures
            self.hash_lock@ == hash_lock,
            rest == self.after_hash_lock() + tail,
    {
        assert(self.after_recipient() + tail =~= rlp::rlp_string(self.hash_lock@) + (
        self.after_hash_lock() + tail));
        rlp::lemma_string_unique(self.hash_lock@, self.after_hash_lock() + tail, hash_lock, rest);
    }

    /// The time lock is read off the front of what follows the hash lock.
    proof fn lemma_take_time_lock(self, tail: Seq<u8>, time_lock: U256, rest: Seq<u8>)
        requires
            self.after_hash_lock() + tail == rlp::rlp_uint(time_lock@) + rest,
        ensures
            self.time_lock@ == time_lock@,
            rest == rlp::rlp_uint(self.state as nat) + tail,
    {
        lemma_word_fits(self.time_lock);
        lemma_word_fits(time_lock);
        assert(self.after_hash_lock() + tail =~= rlp::rlp_uint(self.time_lock@) + (rlp::rlp_uint(
            self.state as nat,
        ) + tail));
        rlp::lemma_uint_unique(
            self.time_lock@,
            rlp::rlp_uint(self.state as nat) + tail,
            time_lock@,
            rest,
        );
    }

    /// A number of one byte takes at most one byte.
    proof fn lemma_state_fits(state: u8)
        ensures
            uint::be_bytes(state as nat).len() <= 1,
    {
        uint::lemma_pow256_values();
        uint::lemma_be_bytes_len(state as nat, 1);
    }

    /// Bytes that start with the fields of a record determine the record, and what follows.
    proof fn lemma_fields_unique(self, tail1: Seq<u8>, other: Self, tail2: Seq<u8>)
        requires
            self.payload() + tail1 == other.payload() + tail2,
        ensures
            self == other,
            tail1 == tail2,
    {
        assert(other.payload() + tail2 =~= rlp::rlp_uint(other.amount@) + (other.after_amount()
            + tail2));
        self.lemma_take_amount(tail1, other.amount, other.after_amount() + tail2);
        assert(other.after_amount() + tail2 =~= rlp::rlp_string(other.originator.0@) + (
        other.after_originator() + tail2));
        self.lemma_take_originator(
            tail1,
            other.originator.0@,
            other.after_originator() + tail2,
        );
        assert(other.after_originator() + tail2 =~= rlp::rlp_string(other.recipient@) + (
        other.after_recipient() + tail2));
        self.lemma_take_recipient(tail1, other.recipient@, other.after_recipient() + tail2);
        assert(other.after_recipient() + tail2 =~= rlp::rlp_string(other.hash_lock@) + (
        other.after_hash_lock() + tail2));
        self.lemma_take_hash_lock(tail1, other.hash_lock@, other.after_hash_lock() + tail2);
        let last: Seq<u8> = rlp::rlp_uint(other.state as nat) + tail2;
        assert(other.after_hash_lock() + tail2 =~= rlp::rlp_uint(other.time_lock@) + last);
        self.lemma_take_time_lock(tail1, other.time_lock, last);
        Self::lemma_state_fits(self.state);
        Self::lemma_state_fits(other.state);
        rlp::lemma_uint_unique(self.state as nat, tail1, other.state as nat, tail2);
        uint::lemma_be_nat_injective(self.amount.0@, other.amount.0@);
        uint::lemma_be_nat_injective(self.time_lock.0@, other.time_lock.0@);
        assert(self.amount.0 =~= other.amount.0);
        assert(self.originator.0 =~= other.originator.0);
        assert(self.recipient =~= other.recipient);
        assert(self.hash_lock =~= other.hash_lock);
        assert(self.time_lock.0 =~= other.time_lock.0);
    }

    /// No record's fields stand at the front of `buf`, where none stand behind the amount.
    proof fn lemma_none_after_amount(buf: Seq<u8>, amount: U256, rest: Seq<u8>)
        requires
            buf == rlp::rlp_uint(amount@) + rest,
            forall|d: Self, tail: Seq<u8>| rest != #[trigger] (d.after_amount() + tail),
        ensures
            forall|d: Self, tail: Seq<u8>| buf != #[trigger] (d.payload() + tail),
    {
        assert forall|d: Self, tail: Seq<u8>| buf != #[trigger] (d.payload() + tail) by {
            if buf == d.payload() + tail {
                d.lemma_take_amount(tail, amount, rest);
            }
        }
    }

    /// The same, one field further.
    proof fn lemma_none_after_originator(buf: Seq<u8>, originator: Seq<u8>, rest: Seq<u8>)
        requires
            originator.len() == 20,
            buf == rlp::rlp_string(originator) + rest,
            forall|d: Self, tail: Seq<u8>| rest != #[trigger] (d.after_originator() + tail),
        ensures
            forall|d: Self, tail: Seq<u8>| buf != #[trigger] (d.after_amount() + tail),
    {
        assert forall|d: Self, tail: Seq<u8>| buf != #[trigger] (d.after_amount() + tail) by {
            if buf == d.after_amount() + tail {
                d.lemma_take_originator(tail, originator, rest);
            }
        }
    }

    /// The same, one field further.
    proof fn lemma_none_after_recipient(buf: Seq<u8>, recipient: Seq<u8>, rest: Seq<u8>)
        requires
            recipient.len() == 32,
            buf == rlp::rlp_string(recipient) + rest,
            forall|d: Self, tail: Seq<u8>| rest != #[trigger] (d.after_recipient() + tail),
        ensures
            forall|d: Self, tail: Seq<u8>| buf != #[trigger] (d.after_originator() + tail),
    {
        assert forall|d: Self, tail: Seq<u8>| buf != #[trigger] (d.after_originator() + tail) by {
            if buf == d.after_originator() + tail {
                d.lemma_take_recipient(tail, recipient, rest);
            }
        }
    }

    /// The same, one field further.
    proof fn lemma_none_after_hash_lock(buf: Seq<u8>, hash_lock: Seq<u8>, rest: Seq<u8>)
        requires
            hash_lock.len() == 32,
            buf == rlp::rlp_string(hash_lock) + rest,
            forall|d: Self, tail: Seq<u8>| rest != #[trigger] (d.after_hash_lock() + tail),
        ensures
            forall|d: Self, tail: Seq<u8>| buf != #[trigger] (d.after_recipient() + tail),
    {
        assert forall|d: Self, tail: Seq<u8>| buf != #[trigger] (d.after_recipient() + tail) by {
            if buf == d.after_recipient() + tail {
                d.lemma_take_hash_lock(tail, hash_lock, rest);
            }
        }
    }

    /// The same, one field further.
    proof fn lemma_none_after_time_lock(buf: Seq<u8>, time_lock: U256, rest: Seq<u8>)
        requires
            buf == rlp::rlp_uint(time_lock@) + rest,
            forall|state: u8, tail: Seq<u8>|
                rest != #[trigger] (rlp::rlp_uint(state as nat) + tail),
        ensures
            forall|d: Self, tail: Seq<u8>| buf != #[trigger] (d.after_hash_lock() + tail),
    {
        assert forall|d: Self, tail: Seq<u8>| buf != #[trigger] (d.after_hash_lock() + tail) by {
            if buf == d.after_hash_lock() + tail {
                d.lemma_take_time_lock(tail, time_lock, rest);
            }
        }
    }

    /// Reads the six fields off the front of `buf`.
    fn decode_fields<'a>(buf: &'a [u8]) -> (r: Result<(Self, &'a [u8]), alloy_rlp::Error>)
        ensures
            match r {
                Ok((details, tail)) => buf@ == details.payload() + tail@,
                Err(_) => forall|details: Self, tail: Seq<u8>|
                    buf@ != #[trigger] (details.payload() + tail),
            },
    {
        let (amount, after_amount) = match rlp::read_u256(buf) {
            Ok((value, rest)) => (U256(value), rest),
            Err(e) => {
                assert forall|d: Self, tail: Seq<u8>| buf@ != #[trigger] (d.payload() + tail) by {
                    let rest: Seq<u8> = d.after_amount() + tail;
                    assert(d.payload() + tail =~= rlp::rlp_uint(uint::be_nat(d.amount.0@)) + rest);
                }
                return Err(e);
            },
        };
        let r: Result<(Self, &'a [u8]), alloy_rlp::Error> = Self::decode_after_amount(
            amount,
            after_amount,
        );
        proof {
            match r {
                Ok((details, tail)) => {
                    assert(buf@ =~= details.payload() + tail@);
                },
                Err(_) => {
                    Self::lemma_none_after_amount(buf@, amount, after_amount@);
                },
            }
        }
        r
    }

    /// Reads the five fields behind the amount.
    fn decode_after_amount<'a>(amount: U256, buf: &'a [u8]) -> (r: Result<
        (Self, &'a [u8]),
        alloy_rlp::Error,
    >)
        ensures
            match r {
                Ok((details, tail)) => details.amount == amount && buf@ == details.after_amount()
                    + tail@,
                Err(_) => forall|details: Self, tail: Seq<u8>|
                    buf@ != #[trigger] (details.after_amount() + tail),
            },
    {
        let (originator, after_originator) = match rlp::read_address(buf) {
            Ok((value, rest)) => (EthAddress(value), rest),
            Err(e) => {
                assert forall|d: Self, tail: Seq<u8>|
                    buf@ != #[trigger] (d.after_amount() + tail) by {
                    let rest: Seq<u8> = d.after_originator() + tail;
                    assert(d.after_amount() + tail =~= rlp::rlp_string(d.originator.0@) + rest);
                }
                return Err(e);
            },
        };
        let r: Result<(Self, &'a [u8]), alloy_rlp::Error> = Self::decode_after_originator(
            amount,
            originator,
            after_originator,
        );
        proof {
            match r {
                Ok((details, tail)) => {
                    assert(buf@ =~= details.after_amount() + tail@);
                },
                Err(_) => {
                    Self::lemma_none_after_originator(buf@, originator.0@, after_originator@);
                },
            }
        }
        r
    }

    /// Reads the four fields behind the originator.
    fn decode_after_originator<'a>(amount: U256, originator: EthAddress, buf: &'a [u8]) -> (r:
        Result<(Self, &'a [u8]), alloy_rlp::Error>)
        ensures
            match r {
                Ok((details, tail)) => {
                    &&& details.amount == amount
                    &&& details.originator == originator
                    &&& buf@ == details.after_originator() + tail@
                },
                Err(_) => forall|details: Self, tail: Seq<u8>|
                    buf@ != #[trigger] (details.after_originator() + tail),
            },
    {
        let (recipient, after_recipient) = match rlp::read_bytes32(buf) {
            Ok((value, rest)) => (value, rest),
            Err(e) => {
                assert forall|d: Self, tail: Seq<u8>|
                    buf@ != #[trigger] (d.after_originator() + tail) by {
                    let rest: Seq<u8> = d.after_recipient() + tail;
                    assert(d.after_originator() + tail =~= rlp::rlp_string(d.recipient@) + rest);
                }
                return Err(e);
            },
        };
        let (hash_lock, after_hash_lock) = match rlp::read_bytes32(after_recipient) {
            Ok((value, rest)) => (value, rest),
            Err(e) => {
                assert forall|d: Self, tail: Seq<u8>|
                    after_recipient@ != #[trigger] (d.after_recipient() + tail) by {
                    let rest: Seq<u8> = d.after_hash_lock() + tail;
                    assert(d.after_recipient() + tail =~= rlp::rlp_string(d.hash_lock@) + rest);
                }
                proof {
                    Self::lemma_none_after_recipient(buf@, recipient@, after_recipient@);
                }
                return Err(e);
            },
        };
        let (time_lock, state, tail) = match Self::decode_after_hash_lock(after_hash_lock) {
            Ok(read) => read,
            Err(e) => {
                proof {
                    Self::lemma_none_after_hash_lock(
                        after_recipient@,
                        hash_lock@,
                        after_hash_lock@,
                    );
                    Self::lemma_none_after_recipient(buf@, recipient@, after_recipient@);
                }
                return Err(e);
            },
        };
        let details: Self = EthBridgeTransferDetails {
            amount,
            originator,
            recipient,
            hash_lock,
            time_lock,
            state,
        };
        assert(after_recipient@ =~= details.after_recipient() + tail@);
        assert(buf@ =~= details.after_originator() + tail@);
        Ok((details, tail))
    }

    /// Reads the two fields behind the hash lock.
    fn decode_after_hash_lock<'a>(buf: &'a [u8]) -> (r: Result<
        (U256, u8, &'a [u8]),
        alloy_rlp::Error,
    >)
        ensures
            match r {
                Ok((time_lock, state, tail)) => buf@ == rlp::rlp_uint(time_lock@) + rlp::rlp_uint(
                    state as nat,
                ) + tail@,
                Err(_) => forall|details: Self, tail: Seq<u8>|
                    buf@ != #[trigger] (details.after_hash_lock() + tail),
            },
    {
        let (time_lock, after_time_lock) = match rlp::read_u256(buf) {
            Ok((value, rest)) => (U256(value), rest),
            Err(e) => {
                assert forall|d: Self, tail: Seq<u8>|
                    buf@ != #[trigger] (d.after_hash_lock() + tail) by {
                    let rest: Seq<u8> = rlp::rlp_uint(d.state as nat) + tail;
                    assert(d.after_hash_lock() + tail =~= rlp::rlp_uint(
                        uint::be_nat(d.time_lock.0@),
                    ) + rest);
                }
                return Err(e);
            },
        };
        match rlp::read_u8(after_time_lock) {
            Ok((state, tail)) => {
                assert(buf@ =~= rlp::rlp_uint(time_lock@) + rlp::rlp_uint(state as nat) + tail@);
                Ok((time_lock, state, tail))
            },
            Err(e) => {
                proof {
                    Self::lemma_none_after_time_lock(buf@, time_lock, after_time_lock@);
                }
                Err(e)
            },
        }
    }

    /// Reads a record off the front of `buf`.
    ///
    /// It succeeds exactly on the buffers that start with a written record, and gives back
    /// that record.
    pub fn decode(buf: &[u8]) -> (r: Result<Self, DetailsError>)
        ensures
            forall|details: Self|
                #[trigger] details.rlp().is_prefix_of(buf@) <==> r == Ok::<Self, DetailsError>(
                    details,
                ),
            r matches Ok(details) ==> details.rlp().is_prefix_of(buf@),
            r matches Err(DetailsError::UnexpectedString) <==> exists|len: nat, rest: Seq<u8>|
                rlp::opens_item(buf@, false, len, rest),
            forall|expected: usize, got: usize|
                r == Err::<Self, DetailsError>(
                    DetailsError::ListLengthMismatch { expected, got },
                ) <==> #[trigger] has_other_length(buf@, expected, got),
    {
        assert forall|d: Self| #[trigger] d.rlp().is_prefix_of(buf@) implies rlp::opens_item(
            buf@,
            true,
            d.payload().len(),
            d.payload() + buf@.skip(d.rlp().len() as int),
        ) by {
            lemma_record_opens_list(d, buf@);
        }
        let (list, payload_length, rest) = match rlp::read_header(buf) {
            Ok(opened) => opened,
            Err(e) => return Err(DetailsError::Rlp(e)),
        };
        assert(buf.len() <= u64::MAX);
        assert forall|l: bool, n: nat, s: Seq<u8>| #[trigger]
            rlp::opens_item(buf@, l, n, s) implies l == list && n == payload_length && s
            == rest@ by {
            rlp::lemma_item_unique(buf@, l, n, s, list, payload_length as nat, rest@);
        }
        if !list {
            return Err(DetailsError::UnexpectedString);
        }
        let (details, tail) = match Self::decode_fields(rest) {
            Ok(read) => read,
            Err(e) => return Err(DetailsError::Rlp(e)),
        };
        assert forall|d: Self, t: Seq<u8>| rest@ == #[trigger] (d.payload() + t) implies d
            == details && t == tail@ by {
            d.lemma_fields_unique(t, details, tail@);
        }
        let consumed: usize = rest.len() - tail.len();
        if consumed != payload_length {
            assert(has_other_length(buf@, payload_length, consumed)) by {
                assert(rest@ == details.payload() + tail@);
            }
            return Err(
                DetailsError::ListLengthMismatch { expected: payload_length, got: consumed },
            );
        }
        assert(buf@ =~= details.rlp() + tail@);
        assert(buf@.take(details.rlp().len() as int) =~= details.rlp());
        Ok(details)
    }
}

/// `buf` opens a list of `expected` bytes, and the fields of a record at the front of it take
/// `got` bytes, which is another number.
pub open spec fn has_other_length(buf: Seq<u8>, expected: usize, got: usize) -> bool {
    &&& expected != got
    &&& exists|details: EthBridgeTransferDetails, tail: Seq<u8>|
        details.payload().len() == got && rlp::opens_item(
            buf,
            true,
            expected as nat,
            #[trigger] (details.payload() + tail),
        )
}

/// A written record opens a list whose payload are its fields.
proof fn lemma_record_opens_list(details: EthBridgeTransferDetails, buf: Seq<u8>)
    requires
        details.rlp().is_prefix_of(buf),
    ensures
        rlp::opens_item(
            buf,
            true,
            details.payload().len(),
            details.payload() + buf.skip(details.rlp().len() as int),
        ),
{
    let tail: Seq<u8> = buf.skip(details.rlp().len() as int);
    assert(buf =~= details.rlp() + tail);
    assert(buf =~= rlp::rlp_header(true, details.payload().len()) + (details.payload() + tail));
}

/// How many bytes an item with a short payload takes.
proof fn lemma_short_string_len(payload: Seq<u8>)
    requires
        payload.len() < 56,
    ensures
        rlp::rlp_string(payload).len() >= 1,
        rlp::rlp_string(payload).len() <= 1 + payload.len(),
        payload.len() != 1 ==> rlp::rlp_string(payload).len() == 1 + payload.len(),
{
}

/// How many bytes the fields of a record take.
proof fn lemma_payload_len(details: EthBridgeTransferDetails)
    ensures
        90 <= details.payload().len() <= 155,
{
    lemma_word_fits(details.amount);
    lemma_word_fits(details.time_lock);
    EthBridgeTransferDetails::lemma_state_fits(details.state);
    lemma_short_string_len(uint::be_bytes(details.amount@));
    lemma_short_string_len(details.originator.0@);
    lemma_short_string_len(details.recipient@);
    lemma_short_string_len(details.hash_lock@);
    lemma_short_string_len(uint::be_bytes(details.time_lock@));
    lemma_short_string_len(uint::be_bytes(details.state as nat));
}

/// A buffer starts with at most one record, so a written record reads back as itself,
/// whatever follows it.
pub proof fn law_record_reads_back(
    written: EthBridgeTransferDetails,
    read: EthBridgeTransferDetails,
    buf: Seq<u8>,
)
    requires
        written.rlp().is_prefix_of(buf),
        read.rlp().is_prefix_of(buf),
    ensures
        read == written,
{
    let tail1: Seq<u8> = written.payload() + buf.skip(written.rlp().len() as int);
    let tail2: Seq<u8> = read.payload() + buf.skip(read.rlp().len() as int);
    lemma_payload_len(written);
    lemma_payload_len(read);
    lemma_record_opens_list(written, buf);
    lemma_record_opens_list(read, buf);
    rlp::lemma_header_unique(
        true,
        written.payload().len(),
        tail1,
        true,
        read.payload().len(),
        tail2,
    );
    written.lemma_fields_unique(
        buf.skip(written.rlp().len() as int),
        read,
        buf.skip(read.rlp().len() as int),
    );
}

/// A written record, byte by byte: `0xf8`, the number of bytes that follow, the amount, `0x94` and
/// the 20 bytes of the originator, `0xa0` and the 32 bytes of the recipient, `0xa0` and the 32
/// bytes of the hash lock, the time lock, and the state.
#[verifier::spinoff_prover]
pub proof fn law_record_bytes(details: EthBridgeTransferDetails)
    ensures
        details.rlp() == seq![0xF8u8, (details.rlp().len() - 2) as u8] + (rlp::rlp_uint(
            uint::be_nat(details.amount.0@),
        ) + ((seq![0x94u8] + details.originator.0@) + ((seq![0xA0u8] + details.recipient@) + ((
        seq![0xA0u8] + details.hash_lock@) + (rlp::rlp_uint(uint::be_nat(details.time_lock.0@))
            + rlp::rlp_uint(details.state as nat)))))),
        92 <= details.rlp().len() <= 157,
        details.payload() == details.rlp().skip(2),
{
    lemma_payload_len(details);
    rlp::law_header_bytes(true, details.payload().len());
    rlp::law_string_bytes(details.originator.0@);
    rlp::law_string_bytes(details.recipient@);
    rlp::law_string_bytes(details.hash_lock@);
    assert(details.rlp() == seq![0xF8u8, details.payload().len() as u8] + details.payload());
    assert(details.payload() =~= details.rlp().skip(2));
}

/// Reading gives the record whose bytes stand at the front, and succeeds wherever there is one.
#[verifier::spinoff_prover]
pub proof fn law_reading_undoes_writing(
    written: EthBridgeTransferDetails,
    tail: Seq<u8>,
    buf: &[u8],
    r: Result<EthBridgeTransferDetails, DetailsError>,
)
    requires
        buf@ == written.rlp() + tail,
        call_ensures(EthBridgeTransferDetails::decode, (buf,), r),
    ensures
        r matches Ok(read) && {
            &&& read.amount.0@ == written.amount.0@
            &&& read.originator.0@ == written.originator.0@
            &&& read.recipient@ == written.recipient@
            &&& read.hash_lock@ == written.hash_lock@
            &&& read.time_lock.0@ == written.time_lock.0@
            &&& read.state == written.state
        },
{
    assert(buf@.take(written.rlp().len() as int) =~= written.rlp());
    assert(written.rlp().is_prefix_of(buf@));
    assert(r == Ok::<EthBridgeTransferDetails, DetailsError>(written));
}

/// The lengths that a mismatch reports: the first is the one that the header of the list
/// announces, the second is that of the fields behind the header.
#[verifier::spinoff_prover]
pub proof fn law_reported_lengths(
    buf: &[u8],
    expected: usize,
    got: usize,
    r: Result<EthBridgeTransferDetails, DetailsError>,
)
    requires
        call_ensures(EthBridgeTransferDetails::decode, (buf,), r),
    ensures
        r == Err::<EthBridgeTransferDetails, DetailsError>(
            DetailsError::ListLengthMismatch { expected, got },
        ) <==> {
            &&& expected != got
            &&& exists|record: EthBridgeTransferDetails, tail: Seq<u8>|
                {
                    &&& buf@ == rlp::rlp_header(true, expected as nat) + #[trigger] (
                    record.rlp().skip(2) + tail)
                    &&& record.rlp().len() - 2 == got
                    &&& expected <= got + tail.len()
                }
        },
{
    assert(has_other_length(buf@, expected, got) <==> r == Err::<
        EthBridgeTransferDetails,
        DetailsError,
    >(DetailsError::ListLengthMismatch { expected, got }));
    assert forall|record: EthBridgeTransferDetails| #[trigger] record.payload()
        == record.rlp().skip(2) by {
        law_record_bytes(record);
    }
    if has_other_length(buf@, expected, got) {
        let (record, tail) = choose|record: EthBridgeTransferDetails, tail: Seq<u8>|
            record.payload().len() == got && rlp::opens_item(
                buf@,
                true,
                expected as nat,
                #[trigger] (record.payload() + tail),
            );
        assert(record.payload() + tail == record.rlp().skip(2) + tail);
    }
    if expected != got && exists|record: EthBridgeTransferDetails, tail: Seq<u8>|
        {
            &&& buf@ == rlp::rlp_header(true, expected as nat) + #[trigger] (record.rlp().skip(2)
                + tail)
            &&& record.rlp().len() - 2 == got
            &&& expected <= got + tail.len()
        } {
        let (record, tail) = choose|record: EthBridgeTransferDetails, tail: Seq<u8>|
            {
                &&& buf@ == rlp::rlp_header(true, expected as nat) + #[trigger] (
                record.rlp().skip(2) + tail)
                &&& record.rlp().len() - 2 == got
                &&& expected <= got + tail.len()
            };
        assert(record.payload() == record.rlp().skip(2));
        assert(rlp::opens_item(buf@, true, expected as nat, record.payload() + tail));
    }
}

/// A record takes more than one storage word: no 32 bytes start with one.
pub proof fn law_no_record_in_one_word(word: Seq<u8>, details: EthBridgeTransferDetails)
    requires
        word.len() == 32,
    ensures
        !details.rlp().is_prefix_of(word),
{
    lemma_payload_len(details);
}

/// `details` is the transfer `id` with what `record` says of it. The amount and the time lock
/// are cut to their low 64 bits.
pub open spec fn shows_record(
    details: BridgeTransferDetails<EthAddress, EthHash>,
    id: BridgeTransferId<EthHash>,
    record: EthBridgeTransferDetails,
) -> bool {
    &&& details.bridge_transfer_id == id
    &&& details.initiator_address.0 == record.originator
    &&& details.recipient_address.0@ == record.recipient@
    &&& details.hash_lock.0 == record.hash_lock
    &&& details.time_lock.0 as nat == record.time_lock@ % 0x1_0000_0000_0000_0000
    &&& details.amount.0 as nat == record.amount@ % 0x1_0000_0000_0000_0000
}

/// The transfer `id` with what `record` says of it.
pub fn details_of_record(id: BridgeTransferId<EthHash>, record: &EthBridgeTransferDetails) -> (r:
    BridgeTransferDetails<EthAddress, EthHash>)
    ensures
        shows_record(r, id, *record),
        r.bridge_transfer_id == id,
        r.initiator_address.0 == record.originator,
        r.recipient_address.0@ == record.recipient@,
        r.hash_lock.0 == record.hash_lock,
        r.time_lock.0 as nat == uint::be_nat(record.time_lock.0@) % 0x1_0000_0000_0000_0000,
        r.amount.0 as nat == uint::be_nat(record.amount.0@) % 0x1_0000_0000_0000_0000,
{
    BridgeTransferDetails {
        bridge_transfer_id: id,
        initiator_address: InitiatorAddress(record.originator),
        recipient_address: RecipientAddress(vstd::slice::slice_to_vec(record.recipient.as_slice())),
        hash_lock: HashLock(record.hash_lock),
        time_lock: TimeLock(record.time_lock.wrapping_to_u64()),
        amount: Amount(record.amount.wrapping_to_u64()),
    }
}

/// The details of a record hold its fields, byte for byte and in the same order, under the id
/// that was asked for; of the two numbers they hold the low 64 bits.
pub proof fn law_details_hold_the_record(
    id: BridgeTransferId<EthHash>,
    record: EthBridgeTransferDetails,
    details: BridgeTransferDetails<EthAddress, EthHash>,
)
    requires
        call_ensures(details_of_record, (id, &record), details),
    ensures
        forall|k: int|
            0 <= k < 32 ==> #[trigger] details.bridge_transfer_id.0@[k] == id.0@[k],
        forall|k: int|
            0 <= k < 20 ==> #[trigger] details.initiator_address.0.0@[k]
                == record.originator.0@[k],
        details.recipient_address.0@.len() == 32,
        forall|k: int|
            0 <= k < 32 ==> #[trigger] details.recipient_address.0@[k] == record.recipient@[k],
        forall|k: int| 0 <= k < 32 ==> #[trigger] details.hash_lock.0@[k] == record.hash_lock@[k],
        details.time_lock.0 as nat == uint::be_nat(record.time_lock.0@) % 0x1_0000_0000_0000_0000,
        details.amount.0 as nat == uint::be_nat(record.amount.0@) % 0x1_0000_0000_0000_0000,
{
}

/// An amount and a time lock that fit in 64 bits come out as they were stored.
pub proof fn law_small_values_are_kept(
    details: BridgeTransferDetails<EthAddress, EthHash>,
    id: BridgeTransferId<EthHash>,
    record: EthBridgeTransferDetails,
)
    requires
        shows_record(details, id, record),
        record.amount@ <= u64::MAX,
        record.time_lock@ <= u64::MAX,
    ensures
        details.amount.0 as nat == record.amount@,
        details.time_lock.0 as nat == record.time_lock@,
{
}

} // verus!
