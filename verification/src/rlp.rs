//! RLP, the length-prefixed byte format of Ethereum: what an item looks like, and the
//! `alloy_rlp` calls that write and read one.
//!
//! A written item is described by `rlp_string`, `rlp_uint` and `rlp_list`. Reading is
//! described by the same functions: a reader accepts exactly the buffers that start with
//! a written item, and hands back what was written and what follows it.
use alloy_rlp::{Decodable, Encodable};
use vstd::prelude::*;

use crate::uint;

verus! {

/// The bytes in front of a payload of `len` bytes: one byte up to a length of 55, and
/// beyond that the length of the length followed by the length.
pub open spec fn rlp_header(list: bool, len: nat) -> Seq<u8> {
    let base: nat = if list {
        0xC0
    } else {
        0x80
    };
    if len < 56 {
        seq![(base + len) as u8]
    } else {
        seq![(base + 55 + uint::be_bytes(len).len()) as u8] + uint::be_bytes(len)
    }
}

/// The item that holds the bytes `payload`. A single byte below `0x80` stands for itself.
pub open spec fn rlp_string(payload: Seq<u8>) -> Seq<u8> {
    if payload.len() == 1 && payload[0] < 0x80 {
        payload
    } else {
        rlp_header(false, payload.len()) + payload
    }
}

/// The item that holds the number `n`: the shortest spelling of it, as a string.
pub open spec fn rlp_uint(n: nat) -> Seq<u8> {
    rlp_string(uint::be_bytes(n))
}

/// The item that holds a list, given its items written one after the other.
pub open spec fn rlp_list(payload: Seq<u8>) -> Seq<u8> {
    rlp_header(true, payload.len()) + payload
}

/// `buf` opens an item with a payload of `len` bytes, and `rest` starts with that payload.
pub open spec fn opens_item(buf: Seq<u8>, list: bool, len: nat, rest: Seq<u8>) -> bool {
    &&& len <= rest.len()
    &&& if !list && len == 1 && rest[0] < 0x80 {
        buf == rest
    } else {
        buf == rlp_header(list, len) + rest
    }
}

/// The error that `alloy_rlp` reports; nothing in this crate looks inside it.
#[verifier::external_type_specification]
#[verifier::external_body]
pub struct ExRlpError(alloy_rlp::Error);

/// Calls `alloy_rlp::Header::encode`: the header is appended to `out`.
#[verifier::external_body]
pub(crate) fn write_header(list: bool, payload_length: usize, out: &mut Vec<u8>)
    ensures
        final(out)@ == old(out)@ + rlp_header(list, payload_length as nat),
{
    alloy_rlp::Header { list, payload_length }.encode(out)
}

/// Calls `Encodable::encode` on a `[u8; 32]`: the array is appended to `out` as a string.
#[verifier::external_body]
pub(crate) fn write_bytes32(value: &[u8; 32], out: &mut Vec<u8>)
    ensures
        final(out)@ == old(out)@ + rlp_string(value@),
{
    value.encode(out)
}

/// Calls `Encodable::encode` on an `alloy_primitives::Address`: its 20 bytes are appended
/// to `out` as a string.
#[verifier::external_body]
pub(crate) fn write_address(value: &[u8; 20], out: &mut Vec<u8>)
    ensures
        final(out)@ == old(out)@ + rlp_string(value@),
{
    alloy_primitives::Address::from(*value).encode(out)
}

/// Calls `Encodable::encode` on the `alloy_primitives::U256` that has these big-endian
/// bytes: the number is appended to `out` without leading zeros.
#[verifier::external_body]
pub(crate) fn write_u256(value: &[u8; 32], out: &mut Vec<u8>)
    ensures
        final(out)@ == old(out)@ + rlp_uint(uint::be_nat(value@)),
{
    alloy_primitives::U256::from_be_bytes(*value).encode(out)
}

/// Calls `Encodable::encode` on a `u8`: the number is appended to `out`, zero as an empty
/// string.
#[verifier::external_body]
pub(crate) fn write_u8(value: u8, out: &mut Vec<u8>)
    ensures
        final(out)@ == old(out)@ + rlp_uint(value as nat),
{
    value.encode(out)
}

/// Calls `alloy_rlp::Header::decode`: it succeeds exactly on the buffers that open an item
/// whose payload is all there, and leaves what stands behind the header.
#[verifier::external_body]
pub(crate) fn read_header<'a>(buf: &'a [u8]) -> (r: Result<
    (bool, usize, &'a [u8]),
    alloy_rlp::Error,
>)
    ensures
        match r {
            Ok((list, len, rest)) => opens_item(buf@, list, len as nat, rest@),
            Err(_) => forall|list: bool, len: nat, rest: Seq<u8>|
                !opens_item(buf@, list, len, rest),
        },
{
    let mut rest = buf;
    let header = alloy_rlp::Header::decode(&mut rest)?;
    Ok((header.list, header.payload_length, rest))
}

/// Calls `Decodable::decode` for a `[u8; 32]`: it succeeds exactly on the buffers that
/// start with a string of 32 bytes.
#[verifier::external_body]
pub(crate) fn read_bytes32<'a>(buf: &'a [u8]) -> (r: Result<([u8; 32], &'a [u8]), alloy_rlp::Error>)
    ensures
        match r {
            Ok((value, rest)) => buf@ == rlp_string(value@) + rest@,
            Err(_) => forall|value: Seq<u8>, rest: Seq<u8>|
                value.len() == 32 ==> buf@ != #[trigger] (rlp_string(value) + rest),
        },
{
    let mut rest = buf;
    let value = <[u8; 32]>::decode(&mut rest)?;
    Ok((value, rest))
}

/// Calls `Decodable::decode` for an `alloy_primitives::Address`: it succeeds exactly on the
/// buffers that start with a string of 20 bytes.
#[verifier::external_body]
pub(crate) fn read_address<'a>(buf: &'a [u8]) -> (r: Result<([u8; 20], &'a [u8]), alloy_rlp::Error>)
    ensures
        match r {
            Ok((value, rest)) => buf@ == rlp_string(value@) + rest@,
            Err(_) => forall|value: Seq<u8>, rest: Seq<u8>|
                value.len() == 20 ==> buf@ != #[trigger] (rlp_string(value) + rest),
        },
{
    let mut rest = buf;
    let value = alloy_primitives::Address::decode(&mut rest)?;
    Ok((value.into_array(), rest))
}

/// Calls `Decodable::decode` for an `alloy_primitives::U256`, handed out as its 32
/// big-endian bytes: it succeeds exactly on the buffers that start with a number of at most
/// 32 bytes, written without leading zeros.
#[verifier::external_body]
pub(crate) fn read_u256<'a>(buf: &'a [u8]) -> (r: Result<([u8; 32], &'a [u8]), alloy_rlp::Error>)
    ensures
        match r {
            Ok((value, rest)) => buf@ == rlp_uint(uint::be_nat(value@)) + rest@,
            Err(_) => forall|value: Seq<u8>, rest: Seq<u8>|
                value.len() == 32 ==> buf@ != #[trigger] (rlp_uint(uint::be_nat(value)) + rest),
        },
{
    let mut rest = buf;
    let value = alloy_primitives::U256::decode(&mut rest)?;
    Ok((value.to_be_bytes::<32>(), rest))
}

/// Calls `Decodable::decode` for a `u8`: it succeeds exactly on the buffers that start with
/// a number of at most one byte, written without leading zeros.
#[verifier::external_body]
pub(crate) fn read_u8<'a>(buf: &'a [u8]) -> (r: Result<(u8, &'a [u8]), alloy_rlp::Error>)
    ensures
        match r {
            Ok((value, rest)) => buf@ == rlp_uint(value as nat) + rest@,
            Err(_) => forall|value: u8, rest: Seq<u8>|
                buf@ != #[trigger] (rlp_uint(value as nat) + rest),
        },
{
    let mut rest = buf;
    let value = u8::decode(&mut rest)?;
    Ok((value, rest))
}

/// What the first byte of a header says.
proof fn lemma_header_first_byte(list: bool, len: nat)
    requires
        len <= u64::MAX,
    ensures
        rlp_header(list, len).len() > 0,
        list ==> 0xC0 <= rlp_header(list, len)[0],
        !list ==> 0x80 <= rlp_header(list, len)[0] < 0xC0,
        len < 56 ==> rlp_header(list, len) == seq![
            ((if list {
                0xC0nat
            } else {
                0x80nat
            }) + len) as u8,
        ],
        len >= 56 ==> {
            &&& 1 <= uint::be_bytes(len).len() <= 8
            &&& rlp_header(list, len)[0] as nat == (if list {
                0xC0nat
            } else {
                0x80nat
            }) + 55 + uint::be_bytes(len).len()
        },
{
    if len >= 56 {
        uint::lemma_pow256_values();
        uint::lemma_be_bytes_len(len, 8);
        uint::lemma_be_bytes_shortest(len);
    }
}

/// No header is the beginning of another: a buffer that starts with one determines which,
/// and what follows it.
pub proof fn lemma_header_unique(
    list1: bool,
    len1: nat,
    rest1: Seq<u8>,
    list2: bool,
    len2: nat,
    rest2: Seq<u8>,
)
    requires
        len1 <= u64::MAX,
        len2 <= u64::MAX,
        rlp_header(list1, len1) + rest1 == rlp_header(list2, len2) + rest2,
    ensures
        list1 == list2,
        len1 == len2,
        rest1 == rest2,
{
    let h1: Seq<u8> = rlp_header(list1, len1);
    let h2: Seq<u8> = rlp_header(list2, len2);
    lemma_header_first_byte(list1, len1);
    lemma_header_first_byte(list2, len2);
    assert((h1 + rest1)[0] == h1[0]);
    assert((h2 + rest2)[0] == h2[0]);
    assert(list1 == list2);
    if len1 < 56 {
        assert(len1 == len2);
    } else {
        assert(len2 >= 56);
        let k: int = uint::be_bytes(len1).len() as int;
        assert(k == uint::be_bytes(len2).len());
        assert((h1 + rest1).subrange(1, 1 + k) =~= uint::be_bytes(len1));
        assert((h2 + rest2).subrange(1, 1 + k) =~= uint::be_bytes(len2));
        uint::lemma_be_bytes_read_back(len1);
        uint::lemma_be_bytes_read_back(len2);
    }
    assert((h1 + rest1).skip(h1.len() as int) =~= rest1);
    assert((h2 + rest2).skip(h2.len() as int) =~= rest2);
}

/// A buffer opens at most one item.
pub proof fn lemma_item_unique(
    buf: Seq<u8>,
    list1: bool,
    len1: nat,
    rest1: Seq<u8>,
    list2: bool,
    len2: nat,
    rest2: Seq<u8>,
)
    requires
        buf.len() <= u64::MAX,
        opens_item(buf, list1, len1, rest1),
        opens_item(buf, list2, len2, rest2),
    ensures
        list1 == list2,
        len1 == len2,
        rest1 == rest2,
{
    lemma_header_first_byte(list1, len1);
    lemma_header_first_byte(list2, len2);
    let bare1: bool = !list1 && len1 == 1 && rest1[0] < 0x80;
    let bare2: bool = !list2 && len2 == 1 && rest2[0] < 0x80;
    if bare1 {
        if !bare2 {
            assert(buf[0] == rlp_header(list2, len2)[0]);
        }
    } else if bare2 {
        assert(buf[0] == rlp_header(list1, len1)[0]);
    } else {
        lemma_header_unique(list1, len1, rest1, list2, len2, rest2);
    }
}

/// No string item is the beginning of another: a buffer that starts with one determines its
/// payload, and what follows it.
pub proof fn lemma_string_unique(p: Seq<u8>, rest1: Seq<u8>, q: Seq<u8>, rest2: Seq<u8>)
    requires
        p.len() <= u64::MAX,
        q.len() <= u64::MAX,
        rlp_string(p) + rest1 == rlp_string(q) + rest2,
    ensures
        p == q,
        rest1 == rest2,
{
    lemma_header_first_byte(false, p.len());
    lemma_header_first_byte(false, q.len());
    let buf: Seq<u8> = rlp_string(p) + rest1;
    let bare_p: bool = p.len() == 1 && p[0] < 0x80;
    let bare_q: bool = q.len() == 1 && q[0] < 0x80;
    assert(buf[0] == rlp_string(p)[0]);
    assert(buf[0] == rlp_string(q)[0]);
    if bare_p {
        assert(bare_q) by {
            if !bare_q {
                assert(rlp_string(q)[0] == rlp_header(false, q.len())[0]);
            }
        }
        assert(p =~= q);
        assert(buf.skip(1) =~= rest1);
        assert(buf.skip(1) =~= rest2);
    } else {
        assert(!bare_q) by {
            assert(rlp_string(p)[0] == rlp_header(false, p.len())[0]);
        }
        assert(buf =~= rlp_header(false, p.len()) + (p + rest1));
        assert(buf =~= rlp_header(false, q.len()) + (q + rest2));
        lemma_header_unique(false, p.len(), p + rest1, false, q.len(), q + rest2);
        assert((p + rest1).take(p.len() as int) =~= p);
        assert((q + rest2).take(q.len() as int) =~= q);
        assert((p + rest1).skip(p.len() as int) =~= rest1);
        assert((q + rest2).skip(q.len() as int) =~= rest2);
    }
}

/// No number item is the beginning of another.
pub proof fn lemma_uint_unique(m: nat, rest1: Seq<u8>, n: nat, rest2: Seq<u8>)
    requires
        uint::be_bytes(m).len() <= u64::MAX,
        uint::be_bytes(n).len() <= u64::MAX,
        rlp_uint(m) + rest1 == rlp_uint(n) + rest2,
    ensures
        m == n,
        rest1 == rest2,
{
    lemma_string_unique(uint::be_bytes(m), rest1, uint::be_bytes(n), rest2);
    uint::lemma_be_bytes_read_back(m);
    uint::lemma_be_bytes_read_back(n);
}

/// The headers of short and of medium items, byte by byte.
pub proof fn law_header_bytes(list: bool, len: nat)
    requires
        len < 256,
    ensures
        !list && len < 56 ==> rlp_header(list, len) == seq![(0x80 + len) as u8],
        list && len < 56 ==> rlp_header(list, len) == seq![(0xC0 + len) as u8],
        !list && len >= 56 ==> rlp_header(list, len) == seq![0xB8u8, len as u8],
        list && len >= 56 ==> rlp_header(list, len) == seq![0xF8u8, len as u8],
{
    if len >= 56 {
        assert(uint::be_bytes(0) =~= Seq::<u8>::empty());
        assert(len / 256 == 0 && len % 256 == len);
        assert(uint::be_bytes(len) =~= seq![len as u8]);
        assert(rlp_header(list, len) =~= seq![
            (if list {
                0xF8u8
            } else {
                0xB8u8
            }),
            len as u8,
        ]);
    }
}

/// A string item of more than one and of less than 56 bytes: its length plus `0x80`, and then its
/// bytes as they are.
pub proof fn law_string_bytes(payload: Seq<u8>)
    requires
        2 <= payload.len() < 56,
    ensures
        rlp_string(payload) == seq![(0x80 + payload.len()) as u8] + payload,
{
}

/// A number item, byte by byte: `0x80` for zero, the number itself below `0x80`, and beyond that
/// the number of digits to the base 256 plus `0x80`, followed by the digits, the first of which
/// is not zero.
pub proof fn law_number_bytes(n: nat)
    requires
        n < uint::pow256(32),
    ensures
        n == 0 ==> rlp_uint(n) == seq![0x80u8],
        0 < n < 0x80 ==> rlp_uint(n) == seq![n as u8],
        n >= 0x80 ==> {
            &&& 2 <= rlp_uint(n).len() <= 33
            &&& rlp_uint(n)[0] as int == 0x80 + rlp_uint(n).len() - 1
            &&& rlp_uint(n)[1] != 0
            &&& uint::be_nat(rlp_uint(n).skip(1)) == n
        },
{
    uint::lemma_be_bytes_len(n, 32);
    uint::lemma_be_bytes_shortest(n);
    uint::lemma_be_bytes_read_back(n);
    assert(uint::be_bytes(0) =~= Seq::<u8>::empty());
    if 0 < n && n < 0x80 {
        assert(n / 256 == 0 && n % 256 == n);
        assert(uint::be_bytes(n) =~= seq![n as u8]);
    } else if n >= 0x80 {
        let digits: Seq<u8> = uint::be_bytes(n);
        if digits.len() == 1 {
            assert(digits.drop_last() =~= Seq::<u8>::empty());
            assert(uint::be_nat(digits) == 256 * uint::be_nat(digits.drop_last())
                + digits.last() as nat);
            assert(uint::be_nat(digits.drop_last()) == 0);
            assert(digits[0] as nat == n);
        }
        assert(rlp_uint(n) =~= seq![(0x80 + digits.len()) as u8] + digits);
        assert(rlp_uint(n).skip(1) =~= digits);
    } else {
        assert(rlp_uint(0) =~= seq![0x80u8]);
    }
}

} // verus!
