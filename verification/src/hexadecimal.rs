//! Addresses and private keys as hexadecimal text.
use alloy::signers::local::PrivateKeySigner;
use vstd::prelude::*;

use crate::uint;

verus! {

/// The value of a hexadecimal digit of either case, and `-1` for any other character.
pub open spec fn hex_value(c: char) -> int {
    if '0' <= c <= '9' {
        c as int - '0' as int
    } else if 'a' <= c <= 'f' {
        c as int - 'a' as int + 10
    } else if 'A' <= c <= 'F' {
        c as int - 'A' as int + 10
    } else {
        -1
    }
}

/// `text` without a leading `0x` or `0X`.
pub open spec fn without_prefix(text: Seq<char>) -> Seq<char> {
    if text.len() >= 2 && text[0] == '0' && (text[1] == 'x' || text[1] == 'X') {
        text.skip(2)
    } else {
        text
    }
}

/// `digits` are hexadecimal digits, two for each of `n` bytes.
pub open spec fn spells_bytes(digits: Seq<char>, n: nat) -> bool {
    &&& digits.len() == 2 * n
    &&& forall|i: int| 0 <= i < digits.len() ==> 0 <= hex_value(#[trigger] digits[i])
}

/// The `n` bytes that `text` spells in hexadecimal, with or without a prefix.
pub open spec fn hex_bytes(text: Seq<char>, n: nat) -> Option<Seq<u8>> {
    let digits: Seq<char> = without_prefix(text);
    if spells_bytes(digits, n) {
        Some(
            Seq::new(
                n,
                |i: int| (16 * hex_value(digits[2 * i]) + hex_value(digits[2 * i + 1])) as u8,
            ),
        )
    } else {
        None
    }
}

/// The lower-case hexadecimal digit of a value below 16.
pub open spec fn hex_digit(value: int) -> char {
    if value < 10 {
        ('0' as int + value) as char
    } else {
        ('a' as int + value - 10) as char
    }
}

/// `bytes` in lower-case hexadecimal, behind a `0x`.
pub open spec fn hex_text(bytes: Seq<u8>) -> Seq<char> {
    seq!['0', 'x'] + Seq::new(
        2 * bytes.len(),
        |i: int|
            hex_digit(
                if i % 2 == 0 {
                    bytes[i / 2] as int / 16
                } else {
                    bytes[i / 2] as int % 16
                },
            ),
    )
}

/// The order of the group that the private keys belong to.
pub open spec fn group_order() -> nat {
    0xFFFFFFFF_FFFFFFFF_FFFFFFFF_FFFFFFFE_BAAEDCE6_AF48A03B_BFD25E8C_D0364141nat
}

/// 32 bytes that are a private key: a number from one up to the order of the group,
/// exclusive.
pub open spec fn is_private_key(bytes: Seq<u8>) -> bool {
    &&& bytes.len() == 32
    &&& 0 < uint::be_nat(bytes) < group_order()
}

/// The private key that `text` spells, where it spells one.
pub open spec fn private_key(text: Seq<char>) -> Option<Seq<u8>> {
    match hex_bytes(text, 32) {
        Some(bytes) if is_private_key(bytes) => Some(bytes),
        _ => None,
    }
}

/// What is written in hexadecimal reads back as the bytes that were written.
pub proof fn law_hex_reads_back(bytes: Seq<u8>)
    ensures
        hex_bytes(hex_text(bytes), bytes.len()) == Some(bytes),
{
    let text: Seq<char> = hex_text(bytes);
    let digits: Seq<char> = without_prefix(text);
    assert(digits =~= text.skip(2));
    assert forall|i: int| 0 <= i < digits.len() implies hex_value(#[trigger] digits[i]) == (if i % 2
        == 0 {
        bytes[i / 2] as int / 16
    } else {
        bytes[i / 2] as int % 16
    }) by {
        assert(digits[i] == text[i + 2]);
    }
    assert(spells_bytes(digits, bytes.len()));
    let back: Seq<u8> = hex_bytes(text, bytes.len()).unwrap();
    assert forall|i: int| 0 <= i < bytes.len() implies back[i] == bytes[i] by {
        assert(hex_value(digits[2 * i]) == bytes[i] as int / 16);
        assert(hex_value(digits[2 * i + 1]) == bytes[i] as int % 16);
    }
    assert(back =~= bytes);
}

/// The error that `alloy_primitives` reports for text that is not hexadecimal.
#[verifier::external_type_specification]
#[verifier::external_body]
pub struct ExFromHexError(alloy_primitives::hex::FromHexError);

/// The error that `alloy`'s local signer reports for text that is no private key.
#[verifier::external_type_specification]
#[verifier::external_body]
pub struct ExLocalSignerError(alloy::signers::local::LocalSignerError);

/// Calls `str::parse` for an `alloy_primitives::Address`: it succeeds exactly where the text
/// spells 20 bytes in hexadecimal, and gives those. The case of the digits does not matter.
#[verifier::external_body]
pub(crate) fn parse_address(text: &str) -> (r: Result<
    [u8; 20],
    alloy_primitives::hex::FromHexError,
>)
    ensures
        match r {
            Ok(bytes) => hex_bytes(text@, 20) == Some(bytes@),
            Err(_) => hex_bytes(text@, 20) is None,
        },
{
    text.parse::<alloy_primitives::Address>().map(|address| address.into_array())
}

/// Calls `str::parse` for a `PrivateKeySigner` and takes the key out with `to_bytes`: it
/// succeeds exactly where the text spells a private key in hexadecimal, and gives that key.
#[verifier::external_body]
pub(crate) fn parse_private_key(text: &str) -> (r: Result<
    [u8; 32],
    alloy::signers::local::LocalSignerError,
>)
    ensures
        match r {
            Ok(key) => private_key(text@) == Some(key@),
            Err(_) => private_key(text@) is None,
        },
{
    text.parse::<PrivateKeySigner>().map(|signer| signer.to_bytes().0)
}

/// Calls `PrivateKeySigner::random` and takes the key out with `to_bytes`. Which key comes is
/// left to chance; every one that can come is a private key.
#[verifier::external_body]
pub(crate) fn random_private_key() -> (key: [u8; 32])
    ensures
        is_private_key(key@),
{
    PrivateKeySigner::random().to_bytes().0
}

/// Calls `to_string` on an `alloy_primitives::B256`: the text is the 32 bytes in lower-case
/// hexadecimal, behind a `0x`.
#[verifier::external_body]
pub(crate) fn b256_text(bytes: &[u8; 32]) -> (text: String)
    ensures
        text@ == hex_text(bytes@),
{
    alloy_primitives::B256::from(*bytes).to_string()
}

} // verus!
