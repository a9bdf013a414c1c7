//! Decoding of the variable length integers used by DWARF.
use vstd::prelude::*;
use vstd::arithmetic::power2::{pow2, lemma2_to64, lemma2_to64_rest, lemma_pow2_strictly_increases};
use vstd::bits::lemma_u64_shl_is_mul;

verus! {

/// An unsigned LEB128 number: seven bits per byte, least significant group
/// first, the top bit of a byte set when more bytes follow.
pub type Uleb128 = [u8];

/// How many bytes of `s` one number takes: up to and including the first
/// byte whose top bit is clear, or all of `s` when there is none.
pub open spec fn uleb128_len(s: Seq<u8>) -> nat
    decreases s.len(),
{
    if s.len() == 0 {
        0
    } else if s[0] >> 7u8 == 0 {
        1
    } else {
        1 + uleb128_len(s.drop_first())
    }
}

/// The value of the first `n` bytes of `s`: the seven low bits of byte `i`
/// placed at bit `7 * i`, in a 64 bit integer.
pub open spec fn uleb128_value(s: Seq<u8>, n: nat) -> u64
    decreases n,
{
    if n == 0 {
        0
    } else {
        uleb128_value(s, (n - 1) as nat) | (((s[n - 1] & 0x7fu8) as u64) << ((7 * (n - 1))
            as u64))
    }
}

/// The first `n` groups of `s` as a sum: the seven low bits of byte `i`
/// weigh `2^(7 * i)`.
pub open spec fn uleb128_sum(s: Seq<u8>, n: nat) -> int
    decreases n,
{
    if n == 0 {
        0
    } else {
        uleb128_sum(s, (n - 1) as nat) + ((s[n - 1] & 0x7fu8) as int) * pow2((7 * (n - 1)) as nat)
    }
}

/// Up to nine groups do not overlap in 64 bits, so the value of the first
/// `n` bytes is the sum of their groups, and below `2^(7 * n)`.
pub proof fn lemma_uleb128_value_is_sum(s: Seq<u8>, n: nat)
    requires
        n <= 9,
    ensures
        uleb128_value(s, n) as int == uleb128_sum(s, n),
        (uleb128_value(s, n) as int) < pow2(7 * n),
    decreases n,
{
    lemma2_to64();
    lemma2_to64_rest();
    if n > 0 {
        let m = (n - 1) as nat;
        lemma_uleb128_value_is_sum(s, m);
        let v = uleb128_value(s, m);
        let b: u8 = s[n - 1];
        let g = (b & 0x7fu8) as u64;
        let k = (7 * m) as u64;
        assert(((b & 0x7fu8) as u64) < 128) by (bit_vector);
        assert(pow2(7 * m) <= pow2(56)) by {
            if 7 * m < 56 {
                lemma_pow2_strictly_increases(7 * m, 56);
            }
        }
        assert(g * pow2(7 * m) <= 127 * pow2(56)) by (nonlinear_arith)
            requires
                g < 128,
                pow2(7 * m) <= pow2(56),
        ;
        assert(k as nat == 7 * m);
        assert(pow2(56) == 0x100_0000_0000_0000);
        assert(g * pow2(k as nat) <= u64::MAX);
        assert(1 * pow2(k as nat) <= u64::MAX);
        assert((k + 7) as u64 as nat == 7 * m + 7);
        assert(pow2(7 * m + 7) <= pow2(63)) by {
            if 7 * m + 7 < 63 {
                lemma_pow2_strictly_increases(7 * m + 7, 63);
            }
        }
        lemma_u64_shl_is_mul(g, k);
        lemma_u64_shl_is_mul(1u64, k);
        lemma_u64_shl_is_mul(1u64, (k + 7) as u64);
        assert((v | (g << k)) == v + (g << k) && (v | (g << k)) < (1u64 << ((k + 7) as u64))) by (bit_vector)
            requires
                v < (1u64 << k),
                g < 128,
                k <= 56,
        ;
        assert(7 * n == 7 * m + 7);
    }
}

/// Whether the decoder accepts `s`: it is not empty, its number spans at
/// most ten bytes, and when no byte ends it there are at least two bytes.
pub open spec fn uleb128_decodable(s: Seq<u8>) -> bool {
    &&& s.len() > 0
    &&& uleb128_len(s) <= 10
    &&& (uleb128_len(s) == s.len() && s[s.len() - 1] >> 7u8 != 0) ==> s.len() >= 2
}

proof fn lemma_uleb128_len_step(s: Seq<u8>, i: int)
    requires
        0 <= i < s.len(),
        forall|j: int| 0 <= j < i ==> #[trigger] s[j] >> 7u8 != 0,
    ensures
        s[i] >> 7u8 == 0 ==> uleb128_len(s) == i + 1,
        uleb128_len(s) >= i + 1,
    decreases i,
{
    if i > 0 {
        assert(s[0] >> 7u8 != 0);
        lemma_uleb128_len_step(s.drop_first(), i - 1);
    }
}

proof fn lemma_uleb128_len_all(s: Seq<u8>)
    requires
        forall|j: int| 0 <= j < s.len() ==> #[trigger] s[j] >> 7u8 != 0,
    ensures
        uleb128_len(s) == s.len(),
    decreases s.len(),
{
    if s.len() > 0 {
        assert(s[0] >> 7u8 != 0);
        lemma_uleb128_len_all(s.drop_first());
    }
}

proof fn lemma_uleb128_len_le(s: Seq<u8>)
    ensures
        uleb128_len(s) <= s.len(),
    decreases s.len(),
{
    if s.len() > 0 {
        lemma_uleb128_len_le(s.drop_first());
    }
}

/// The value of the LEB128 number at the start of `bytes`.
pub fn from_uleb128(bytes: &Uleb128) -> (r: u64)
    requires
        uleb128_decodable(bytes@),
    ensures
        r == uleb128_value(bytes@, uleb128_len(bytes@)),
        uleb128_len(bytes@) <= 9 ==> r as int == uleb128_sum(bytes@, uleb128_len(bytes@)),
{
    let mut res: u64 = 0;
    let mut shift: u64 = 0;
    let mut last_byte: usize = 0;
    let mut i: usize = 0;
    proof {
        lemma_uleb128_len_le(bytes@);
    }
    while i < bytes.len()
        invariant_except_break
            i <= bytes.len(),
            i == last_byte,
            shift == 7 * i,
            i <= uleb128_len(bytes@),
            uleb128_decodable(bytes@),
            uleb128_len(bytes@) <= 10,
            uleb128_len(bytes@) <= bytes@.len(),
            forall|j: int| 0 <= j < i ==> #[trigger] bytes@[j] >> 7u8 != 0,
            res == uleb128_value(bytes@, i as nat),
        ensures
            res == uleb128_value(bytes@, uleb128_len(bytes@)),
            (last_byte == bytes.len() && shift == 7 * last_byte && bytes.len() >= 2) || (last_byte < bytes.len()
                && bytes@[last_byte as int] >> 7u8 == 0),
        decreases bytes.len() - i,
    {
        proof {
            lemma_uleb128_len_step(bytes@, i as int);
        }
        res = res | (((bytes[i] & 0x7f) as u64) << shift);
        if bytes[i] >> 7 == 0 {
            break;
        }
        shift = shift + 7;
        last_byte = last_byte + 1;
        i = i + 1;
        proof {
            if i == bytes.len() {
                lemma_uleb128_len_all(bytes@);
                assert(bytes@[bytes@.len() - 1] >> 7u8 != 0);
            }
        }
    }
    let r = if shift < 8 && bytes[last_byte] >> 7 == 1 {
        res | (!0u64 << shift)
    } else {
        res
    };
    proof {
        if uleb128_len(bytes@) <= 9 {
            lemma_uleb128_value_is_sum(bytes@, uleb128_len(bytes@));
        }
    }
    r
}

} // verus!
