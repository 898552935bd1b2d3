//! Unsigned integers as big-endian bytes, and the 256-bit words of the contract.
use vstd::prelude::*;

verus! {

/// The number that `bytes` spells out, most significant byte first.
pub open spec fn be_nat(bytes: Seq<u8>) -> nat
    decreases bytes.len(),
{
    if bytes.len() == 0 {
        0
    } else {
        256 * be_nat(bytes.drop_last()) + bytes.last() as nat
    }
}

/// The shortest big-endian spelling of `n`; zero is spelled by no byte at all.
pub open spec fn be_bytes(n: nat) -> Seq<u8>
    decreases n,
{
    if n == 0 {
        Seq::empty()
    } else {
        be_bytes(n / 256).push((n % 256) as u8)
    }
}

/// `256` to the power of `k`.
pub open spec fn pow256(k: nat) -> nat
    decreases k,
{
    if k == 0 {
        1
    } else {
        256 * pow256((k - 1) as nat)
    }
}

/// Spelling a number out and reading it back gives the number.
pub proof fn lemma_be_bytes_read_back(n: nat)
    ensures
        be_nat(be_bytes(n)) == n,
    decreases n,
{
    if n > 0 {
        lemma_be_bytes_read_back(n / 256);
        assert(be_bytes(n).drop_last() =~= be_bytes(n / 256));
    }
}

/// The shortest spelling has no leading zero, and is empty for zero only.
pub proof fn lemma_be_bytes_shortest(n: nat)
    ensures
        be_bytes(n).len() == 0 <==> n == 0,
        n > 0 ==> be_bytes(n)[0] != 0,
    decreases n,
{
    if n > 0 {
        lemma_be_bytes_shortest(n / 256);
    }
}

/// A number below `256` to the power of `k` takes at most `k` bytes.
pub proof fn lemma_be_bytes_len(n: nat, k: nat)
    requires
        n < pow256(k),
    ensures
        be_bytes(n).len() <= k,
    decreases k,
{
    if n > 0 {
        if k == 0 {
            assert(pow256(0) == 1);
        } else {
            assert(pow256(k) == 256 * pow256((k - 1) as nat));
            lemma_be_bytes_len(n / 256, (k - 1) as nat);
        }
    }
}

/// `k` bytes spell a number below `256` to the power of `k`.
pub proof fn lemma_be_nat_bound(bytes: Seq<u8>)
    ensures
        be_nat(bytes) < pow256(bytes.len()),
    decreases bytes.len(),
{
    if bytes.len() > 0 {
        lemma_be_nat_bound(bytes.drop_last());
    }
}

/// Two spellings of one length that give the same number are the same bytes.
pub proof fn lemma_be_nat_injective(a: Seq<u8>, b: Seq<u8>)
    requires
        a.len() == b.len(),
        be_nat(a) == be_nat(b),
    ensures
        a == b,
    decreases a.len(),
{
    if a.len() > 0 {
        let x: nat = be_nat(a.drop_last());
        let y: nat = be_nat(b.drop_last());
        assert(256 * x + a.last() as nat == 256 * y + b.last() as nat);
        assert(x == y && a.last() == b.last());
        lemma_be_nat_injective(a.drop_last(), b.drop_last());
        assert(a =~= a.drop_last().push(a.last()));
        assert(b =~= b.drop_last().push(b.last()));
    }
}

/// The powers of `256` that bound the integer types in use.
pub proof fn lemma_pow256_values()
    ensures
        pow256(1) == 0x100,
        pow256(8) == 0x1_0000_0000_0000_0000,
{
    reveal_with_fuel(pow256, 9);
}

/// A 256-bit unsigned integer, held as its 32 big-endian bytes.
#[derive(Clone, Copy, Debug, PartialEq, Eq)]
pub struct U256(pub [u8; 32]);

impl View for U256 {
    type V = nat;

    open spec fn view(&self) -> nat {
        be_nat(self.0@)
    }
}

/// Tells whether two byte arrays hold the same bytes.
pub fn same_bytes(a: &[u8; 32], b: &[u8; 32]) -> (same: bool)
    ensures
        same == (a@ == b@),
{
    let mut i: usize = 0;
    while i < 32
        invariant
            i <= 32,
            forall|j: int| 0 <= j < i ==> a@[j] == b@[j],
        decreases 32 - i,
    {
        if a[i] != b[i] {
            assert(a@[i as int] != b@[i as int]);
            return false;
        }
        i += 1;
    }
    assert(a@ =~= b@);
    true
}

/// Calls `alloy_primitives::U256::from` on a `u64` and hands the value out as its 32
/// big-endian bytes: they spell the number that went in.
#[verifier::external_body]
fn word_of_u64(value: u64) -> (word: [u8; 32])
    ensures
        be_nat(word@) == value as nat,
{
    alloy_primitives::U256::from(value).to_be_bytes::<32>()
}

/// Calls `wrapping_to::<u64>` on the `alloy_primitives::U256` that has these big-endian
/// bytes: what comes back is the number modulo two to the power of 64.
#[verifier::external_body]
fn low_u64_of_word(word: &[u8; 32]) -> (low: u64)
    ensures
        low as nat == be_nat(word@) % 0x1_0000_0000_0000_0000,
{
    alloy_primitives::U256::from_be_bytes(*word).wrapping_to::<u64>()
}

impl U256 {
    /// The 256-bit integer with the value of a `u64`.
    pub fn from_u64(value: u64) -> (word: Self)
        ensures
            word@ == value as nat,
            be_nat(word.0@) == value as nat,
    {
        U256(word_of_u64(value))
    }

    /// The value modulo two to the power of 64.
    pub fn wrapping_to_u64(&self) -> (low: u64)
        ensures
            low as nat == self@ % 0x1_0000_0000_0000_0000,
            low as nat == be_nat(self.0@) % 0x1_0000_0000_0000_0000,
    {
        low_u64_of_word(&self.0)
    }

    /// The value as a `u64`, where it fits in one.
    pub fn to_u64(&self) -> (value: Option<u64>)
        ensures
            match value {
                Some(v) => v as nat == self@,
                None => self@ > u64::MAX,
            },
            match value {
                Some(v) => v as nat == be_nat(self.0@),
                None => be_nat(self.0@) > u64::MAX,
            },
    {
        let low: u64 = self.wrapping_to_u64();
        let back: U256 = U256::from_u64(low);
        if same_bytes(&back.0, &self.0) {
            Some(low)
        } else {
            proof {
                if self@ <= u64::MAX {
                    lemma_be_nat_injective(back.0@, self.0@);
                }
            }
            None
        }
    }
}

/// Counted from the right, byte `k` of a spelling is digit `k` of the number to the base 256;
/// and the number has no digits beyond the bytes.
pub proof fn law_big_endian_digits(bytes: Seq<u8>, k: nat)
    requires
        k < bytes.len(),
    ensures
        bytes[bytes.len() - 1 - k] as int == (be_nat(bytes) as int
            / vstd::arithmetic::power::pow(256, k)) % 256,
        be_nat(bytes) < vstd::arithmetic::power::pow(256, bytes.len()),
    decreases k,
{
    lemma_be_nat_bound(bytes);
    lemma_pow256_is_pow(bytes.len());
    vstd::arithmetic::power::lemma_pow0(256);
    let front: Seq<u8> = bytes.drop_last();
    if k > 0 {
        let p: int = vstd::arithmetic::power::pow(256, (k - 1) as nat);
        law_big_endian_digits(front, (k - 1) as nat);
        lemma_pow256_is_pow((k - 1) as nat);
        lemma_pow256_positive((k - 1) as nat);
        assert(vstd::arithmetic::power::pow(256, k) == 256 * p) by {
            reveal(vstd::arithmetic::power::pow);
        }
        vstd::arithmetic::div_mod::lemma_div_denominator(be_nat(bytes) as int, 256, p);
        assert(be_nat(bytes) as int / 256 == be_nat(front));
    }
}

/// `pow256` is the power of `256` that the standard library knows.
proof fn lemma_pow256_is_pow(k: nat)
    ensures
        pow256(k) == vstd::arithmetic::power::pow(256, k),
    decreases k,
{
    reveal(vstd::arithmetic::power::pow);
    if k > 0 {
        lemma_pow256_is_pow((k - 1) as nat);
    }
}

/// Powers of `256` are positive.
proof fn lemma_pow256_positive(k: nat)
    ensures
        pow256(k) > 0,
    decreases k,
{
    if k > 0 {
        lemma_pow256_positive((k - 1) as nat);
    }
}

/// Counted from the right, byte `k` of a 256-bit integer is digit `k` of its value to the base
/// 256; and the value has no further digits.
pub proof fn law_word_digits(word: U256, k: nat)
    requires
        k < 32,
    ensures
        word.0@[31 - k] as int == (word@ as int / vstd::arithmetic::power::pow(256, k)) % 256,
        word@ < vstd::arithmetic::power::pow(256, 32),
{
    law_big_endian_digits(word.0@, k);
}

/// Widening a `u64` puts digit `k` to the base 256 in byte `k` from the right, and zeros in front
/// of its eight bytes.
pub proof fn law_widened_digits(value: u64, word: U256, k: nat)
    requires
        call_ensures(U256::from_u64, (value,), word),
        k < 32,
    ensures
        word.0@[31 - k] as int == (value as int / vstd::arithmetic::power::pow(256, k)) % 256,
        k >= 8 ==> word.0@[31 - k] == 0,
{
    law_big_endian_digits(word.0@, k);
    if k >= 8 {
        lemma_pow256_is_pow(k);
        lemma_pow256_values();
        lemma_pow256_grows(8, k);
        vstd::arithmetic::div_mod::lemma_basic_div(value as int, pow256(k) as int);
    }
}

/// Powers of `256` grow.
proof fn lemma_pow256_grows(j: nat, k: nat)
    requires
        j <= k,
    ensures
        pow256(j) <= pow256(k),
    decreases k,
{
    if j < k {
        lemma_pow256_grows(j, (k - 1) as nat);
    }
}

/// Narrowing what a `u64` was widened to gives the `u64` back, in either way.
pub proof fn law_narrowing_undoes_widening(value: u64, word: U256, low: u64, checked: Option<u64>)
    requires
        call_ensures(U256::from_u64, (value,), word),
        call_ensures(U256::wrapping_to_u64, (&word,), low),
        call_ensures(U256::to_u64, (&word,), checked),
    ensures
        low == value,
        checked == Some(value),
{
}

/// What a `u64` is widened to narrows back to the same `u64`.
pub proof fn law_u64_survives_widening(value: u64, word: U256)
    requires
        word@ == value as nat,
    ensures
        word@ % 0x1_0000_0000_0000_0000 == value as nat,
{
}

} // verus!
