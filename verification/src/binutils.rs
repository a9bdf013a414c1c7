//! Bit and byte helpers shared by the decoder and the simulator.
//!
//! ARM data is little endian: byte 0 of a word is its least significant byte.
use vstd::prelude::*;
use vstd::arithmetic::power2::{pow2, lemma2_to64, lemma_pow2_strictly_increases};
use vstd::bits::lemma_u64_shl_is_mul;
use vstd::bits::lemma_u64_pow2_no_overflow;

verus! {

/// The number `word` read as a little endian 32 bit value.
pub open spec fn le_u32(word: [u8; 4]) -> u32 {
    (word[0] as u32) | ((word[1] as u32) << 8u32) | ((word[2] as u32) << 16u32) | ((word[3]
        as u32) << 24u32)
}

/// The number `hw` read as a little endian 16 bit value.
pub open spec fn le_u16(hw: [u8; 2]) -> u16 {
    (hw[0] as u16) | ((hw[1] as u16) << 8u16)
}

/// The little endian bytes of `v`.
pub open spec fn le_bytes_u32(v: u32) -> [u8; 4] {
    [(v & 0xff) as u8, ((v >> 8u32) & 0xff) as u8, ((v >> 16u32) & 0xff) as u8, ((v >> 24u32)
        & 0xff) as u8]
}

/// The little endian bytes of `v`.
pub open spec fn le_bytes_u16(v: u16) -> [u8; 2] {
    [(v & 0xff) as u8, ((v >> 8u16) & 0xff) as u8]
}

/// A mask of the `l` lowest bits (`1 <= l <= 32`).
pub open spec fn ones(l: u32) -> u32 {
    u32::MAX >> ((32 - l) as u32)
}

/// The bit `bit` of `word`, as 0 or 1.
pub open spec fn bit_of(bit: u32, word: u32) -> u32 {
    (word >> bit) & 1u32
}

/// `v` read as an `l` bit two's complement number, taken modulo 2^32.
pub open spec fn spec_signed_bitfield(l: u32, v: u32) -> i32 {
    if v & (1u32 << ((l - 1) as u32)) != 0 {
        (v as int - pow2(l as nat)) as i32
    } else {
        v as i32
    }
}

/// `v` with its `l` bit sign extended through bit 31.
pub open spec fn sign_extended(l: u32, v: u32) -> u32 {
    if v & (1u32 << ((l - 1) as u32)) != 0 {
        v | !ones(l)
    } else {
        v
    }
}

/// The positions below `n` of the bits set in `v`, in increasing order.
pub open spec fn set_bits_below(v: u16, n: nat) -> Seq<u8>
    decreases n,
{
    if n == 0 {
        Seq::empty()
    } else {
        let rest = set_bits_below(v, (n - 1) as nat);
        if v & (1u16 << ((n - 1) as u16)) != 0 {
            rest.push((n - 1) as u8)
        } else {
            rest
        }
    }
}

/// The positions of the bits set in `v`, in increasing order.
pub open spec fn set_bits(v: u16) -> Seq<u8> {
    set_bits_below(v, 16)
}

proof fn lemma_le_u32_roundtrip(v: u32)
    by (bit_vector)
    ensures
        ((v & 0xff) as u8 as u32) | ((((v >> 8u32) & 0xff) as u8 as u32) << 8u32) | ((((v
            >> 16u32) & 0xff) as u8 as u32) << 16u32) | ((((v >> 24u32) & 0xff) as u8 as u32)
            << 24u32) == v,
{
}

/// The widths of the fields that the instruction encodings use.
pub proof fn lemma_ones_values()
    by (bit_vector)
    ensures
        u32::MAX >> ((32 - 3u32) as u32) == 7u32,
        u32::MAX >> ((32 - 4u32) as u32) == 15u32,
        u32::MAX >> ((32 - 5u32) as u32) == 31u32,
        u32::MAX >> ((32 - 8u32) as u32) == 255u32,
        u32::MAX >> ((32 - 9u32) as u32) == 511u32,
        u32::MAX >> ((32 - 11u32) as u32) == 0x7FFu32,
        u32::MAX >> ((32 - 12u32) as u32) == 0xFFFu32,
        u32::MAX >> ((32 - 16u32) as u32) == 0xFFFFu32,
        u32::MAX >> ((32 - 25u32) as u32) == 0x1FFFFFFu32,
        u32::MAX >> ((32 - 32u32) as u32) == u32::MAX,
{
}

/// Reading back the bytes of a value gives the value.
pub proof fn lemma_le_bytes_u32_roundtrip(v: u32)
    ensures
        le_u32(le_bytes_u32(v)) == v,
{
    lemma_le_u32_roundtrip(v);
}

/// Bit `bit` of `word`, as 0 or 1.
pub fn get_bit(bit: u32, word: u32) -> (r: u32)
    requires
        bit < 32,
    ensures
        r == bit_of(bit, word),
{
    proof {
        lemma_get_bit(bit, word);
    }
    ((1u32 << bit) & word) >> bit
}

proof fn lemma_get_bit(bit: u32, word: u32)
    by (bit_vector)
    requires
        bit < 32,
    ensures
        ((1u32 << bit) & word) >> bit == (word >> bit) & 1u32,
{
}

/// `word` with bit `bit` cleared.
pub fn clear_bit(bit: u32, word: u32) -> (r: u32)
    requires
        bit < 32,
    ensures
        r == word & !(1u32 << bit),
{
    word & !(1u32 << bit)
}

/// `word` with bit `bit` set.
pub fn set_bit(bit: u32, word: u32) -> (r: u32)
    requires
        bit < 32,
    ensures
        r == word | (1u32 << bit),
{
    word | (1u32 << bit)
}

/// `u16::to_le` of std: the value itself on a little endian host, its bytes
/// swapped on a big endian one. The contract states both outcomes and
/// leaves open which host runs the code.
#[verifier::external_body]
fn std_u16_to_le(v: u16) -> (r: u16)
    ensures
        r == v || r == ((v >> 8u16) | (v << 8u16)),
{
    u16::to_le(v)
}

/// The half word `v` in the byte order of ARM memory.
pub fn u16_to_arm_hword(v: u16) -> (r: u16)
    ensures
        r == v || r == ((v >> 8u16) | (v << 8u16)),
{
    std_u16_to_le(v)
}

/// The little endian bytes of `v`.
pub fn u32_to_arm_bytes(v: u32) -> (r: [u8; 4])
    ensures
        r == le_bytes_u32(v),
        le_u32(r) == v,
{
    proof {
        lemma_le_bytes_u32_roundtrip(v);
    }
    [(v & 0xff) as u8, ((v >> 8) & 0xff) as u8, ((v >> 16) & 0xff) as u8, ((v >> 24) & 0xff) as u8]
}

/// The little endian bytes of `v`.
pub fn u16_to_arm_bytes(v: u16) -> (r: [u8; 2])
    ensures
        r == le_bytes_u16(v),
{
    [(v & 0xff) as u8, ((v >> 8) & 0xff) as u8]
}

/// The value of four little endian bytes.
pub fn from_arm_bytes(word: [u8; 4]) -> (r: u32)
    ensures
        r == le_u32(word),
{
    (word[0] as u32) | ((word[1] as u32) << 8) | ((word[2] as u32) << 16) | ((word[3] as u32)
        << 24)
}

/// The value of two little endian bytes.
pub fn from_arm_bytes_16b(hw: [u8; 2]) -> (r: u16)
    ensures
        r == le_u16(hw),
{
    (hw[0] as u16) | ((hw[1] as u16) << 8)
}

/// An unsigned bit field of width `L`, held in the low bits of a word.
#[derive(Copy, Clone, Debug)]
pub struct BitField<const L: u32>(pub u32);

impl<const L: u32> BitField<L> {
    /// A field holding `value`.
    pub fn new(value: u32) -> (r: Self)
        ensures
            r.0 == value,
    {
        BitField(value)
    }

    /// A field holding the byte `value`.
    pub fn from_byte(value: u8) -> (r: Self)
        ensures
            r.0 == value as u32,
    {
        BitField(value as u32)
    }
}

impl<const L: u32> From<u32> for BitField<L> {
    fn from(value: u32) -> (r: Self) {
        BitField(value)
    }
}

impl<const L: u32> vstd::std_specs::convert::FromSpecImpl<u32> for BitField<L> {
    open spec fn obeys_from_spec() -> bool {
        true
    }

    open spec fn from_spec(v: u32) -> Self {
        BitField(v)
    }
}

impl<const L: u32> From<u8> for BitField<L> {
    fn from(value: u8) -> (r: Self) {
        BitField(value as u32)
    }
}

impl<const L: u32> vstd::std_specs::convert::FromSpecImpl<u8> for BitField<L> {
    open spec fn obeys_from_spec() -> bool {
        true
    }

    open spec fn from_spec(v: u8) -> Self {
        BitField(v as u32)
    }
}

proof fn lemma_bitfield_mask(v: u32, start: u32, len: u32)
    by (bit_vector)
    requires
        1 <= len <= 32,
        start < 32,
    ensures
        (v & ((((1u32 << ((len - 1) as u32)) | (((1u32 << ((len - 1) as u32)) - 1u32) as u32)) << start)))
            >> start == (v >> start) & (u32::MAX >> ((32 - len) as u32)),
        (((1u32 << ((len - 1) as u32)) | (((1u32 << ((len - 1) as u32)) - 1u32) as u32))) == u32::MAX
            >> ((32 - len) as u32),
        (1u32 << ((len - 1) as u32)) >= 1u32,
{
}

/// The `LEN` bits of `v` that start at bit `start`.
pub fn get_bitfield<const LEN: u32>(v: u32, start: u32) -> (r: BitField<LEN>)
    requires
        1 <= LEN <= 32,
        start < 32,
    ensures
        r.0 == (v >> start) & ones(LEN),
{
    proof {
        lemma_bitfield_mask(v, start, LEN);
    }
    let last_bit: u32 = 1u32 << (LEN - 1);
    let mask: u32 = (last_bit | (last_bit - 1)) << start;
    let res = v & mask;
    BitField(res >> start)
}

/// The `len` bits of `v` that start at bit `start`.
fn get_bitfield_u32(v: u32, start: u32, len: u32) -> (r: u32)
    requires
        1 <= len <= 32,
        start < 32,
    ensures
        r == (v >> start) & ones(len),
{
    proof {
        lemma_bitfield_mask(v, start, len);
    }
    let last_bit: u32 = 1u32 << (len - 1);
    let mask: u32 = (last_bit | (last_bit - 1)) << start;
    let res = v & mask;
    res >> start
}

proof fn lemma_sign_extend(v: u32, a: u32)
    by (bit_vector)
    requires
        1 <= a <= 32,
    ensures
        ((u32::MAX - (u32::MAX >> ((32 - a) as u32))) as u32) == !(u32::MAX >> ((32 - a) as u32)),
{
}

/// The `A` bit field `x` sign extended to a 32 bit integer.
pub fn sign_extend<const A: u32>(x: BitField<A>) -> (r: i32)
    requires
        1 <= A <= 32,
    ensures
        r == sign_extended(A, x.0) as i32,
{
    let mask: u32 = 1u32 << (A - 1);
    if x.0 & mask != 0 {
        let m = umax::<A>();
        proof {
            lemma_sign_extend(x.0, A);
        }
        let extra_bits = u32::MAX - m;
        let extended = x.0 | extra_bits;
        extended as i32
    } else {
        x.0 as i32
    }
}

/// The low `A` bits of `v` sign extended through bit 31.
pub fn sign_extend_u32<const A: u32>(v: u32) -> (r: u32)
    requires
        1 <= A <= 32,
    ensures
        r == sign_extended(A, v),
{
    let mask: u32 = 1u32 << (A - 1);
    if v & mask != 0 {
        let m = umax::<A>();
        proof {
            lemma_sign_extend(v, A);
        }
        v | (u32::MAX - m)
    } else {
        v
    }
}

/// The largest unsigned value of an `L` bit field.
pub fn umax<const L: u32>() -> (r: u32)
    requires
        1 <= L <= 32,
    ensures
        r == ones(L),
{
    proof {
        lemma_bitfield_mask(0, 0, L);
    }
    let last_bit: u32 = 1u32 << (L - 1);
    last_bit | (last_bit - 1)
}

proof fn lemma_smax(l: u32)
    by (bit_vector)
    requires
        1 <= l < 32,
    ensures
        (((1u32 << ((l - 1) as u32)) - 1u32) as u32) == u32::MAX >> ((33 - l) as u32),
        (u32::MAX >> ((33 - l) as u32)) < 0x8000_0000u32,
        (1u32 << ((l - 1) as u32)) >= 1u32,
{
}

/// The largest signed value of an `L` bit field.
pub fn smax<const L: u32>() -> (r: i32)
    requires
        1 <= L < 32,
    ensures
        r as int == (u32::MAX >> ((33 - L) as u32)) as int,
{
    proof {
        lemma_smax(L);
    }
    let last_bit: u32 = 1u32 << (L - 1);
    (last_bit - 1) as i32
}

/// The smallest signed value of an `L` bit field.
pub fn smin<const L: u32>() -> (r: i32)
    requires
        1 <= L <= 32,
    ensures
        r == spec_signed_bitfield(L, 1u32 << ((L - 1) as u32)),
{
    let min: u32 = 1u32 << (L - 1);
    signed_bitfield::<L>(BitField(min))
}

/// The field `a` with any bits above its width cleared.
pub fn clear_extra<const L: u32>(a: BitField<L>) -> (r: BitField<L>)
    requires
        1 <= L <= 32,
    ensures
        r.0 == a.0 & ones(L),
{
    proof {
        lemma_bitfield_mask(0, 0, L);
    }
    let mask: u32 = (1u32 << (L - 1)) | ((1u32 << (L - 1)) - 1);
    BitField(a.0 & mask)
}

/// The field `a` read as an `L` bit two's complement number.
pub fn signed_bitfield<const L: u32>(a: BitField<L>) -> (r: i32)
    requires
        1 <= L <= 32,
    ensures
        r == spec_signed_bitfield(L, a.0),
{
    if a.0 & (1u32 << (L - 1)) == 0 {
        a.0 as i32
    } else {
        proof {
            lemma_u64_pow2_no_overflow(L as nat);
            lemma_u64_shl_is_mul(1u64, L as u64);
            lemma2_to64();
            if L < 32 {
                lemma_pow2_strictly_increases(L as nat, 32);
            }
        }
        let span: u64 = 1u64 << (L as u64);
        ((a.0 as i64) - (span as i64)) as i32
    }
}

/// A list of registers, one bit per register.
pub type BitList = u16;

/// The positions of the bits set in `bytes`, in increasing order.
pub fn get_set_bits(bytes: BitList) -> (bits: Vec<u8>)
    ensures
        bits@ == set_bits(bytes),
{
    let mut bits: Vec<u8> = Vec::new();
    let mut shift: u16 = 0;
    while shift < 16
        invariant
            shift <= 16,
            bits@ == set_bits_below(bytes, shift as nat),
        decreases 16 - shift,
    {
        proof {
            assert(set_bits_below(bytes, (shift + 1) as nat) == if bytes & (1u16 << shift) != 0 {
                set_bits_below(bytes, shift as nat).push(shift as u8)
            } else {
                set_bits_below(bytes, shift as nat)
            });
        }
        if bytes & (1u16 << shift) != 0 {
            bits.push(shift as u8);
        }
        shift = shift + 1;
    }
    bits
}

/// The positions of the bits set in `v` are set bits, below the bound,
/// in strictly increasing order.
pub proof fn lemma_set_bits_below(v: u16, n: nat)
    requires
        n <= 16,
    ensures
        set_bits_below(v, n).len() <= n,
        forall|k: int|
            0 <= k < set_bits_below(v, n).len() ==> #[trigger] set_bits_below(v, n)[k] < n && v & (1u16
                << (set_bits_below(v, n)[k] as u16)) != 0,
        forall|j: int, k: int|
            0 <= j < k < set_bits_below(v, n).len() ==> set_bits_below(v, n)[j] < set_bits_below(v, n)[k],
    decreases n,
{
    if n > 0 {
        lemma_set_bits_below(v, (n - 1) as nat);
    }
}

/// No bit of 0 is set below any bound.
proof fn lemma_set_bits_below_zero(n: nat)
    requires
        n <= 16,
    ensures
        set_bits_below(0, n).len() == 0,
    decreases n,
{
    if n > 0 {
        let s = (n - 1) as u16;
        assert(0u16 & (1u16 << s) == 0u16) by (bit_vector);
        lemma_set_bits_below_zero((n - 1) as nat);
    }
}

/// A set bit below the bound puts a position in the list.
proof fn lemma_set_bits_below_has(v: u16, n: nat, k: u16)
    requires
        n <= 16,
        k < n,
        v & (1u16 << k) != 0,
    ensures
        set_bits_below(v, n).len() > 0,
    decreases n,
{
    if k < n - 1 {
        lemma_set_bits_below_has(v, (n - 1) as nat, k);
    } else {
        assert((n - 1) as u16 == k);
    }
}

/// A list of registers names some register exactly when it is not empty.
pub proof fn lemma_set_bits_nonempty(v: u16)
    ensures
        set_bits(v).len() > 0 <==> v != 0,
{
    if v == 0 {
        lemma_set_bits_below_zero(16);
    } else {
        assert(v != 0 ==> exists|k: u16| k < 16 && #[trigger] (v & (1u16 << k)) != 0) by {
            let k: u16 = if v & 1 != 0 { 0 } else if v & 2 != 0 { 1 } else if v & 4 != 0 { 2 } else if v & 8 != 0 { 3 }
                else if v & 0x10 != 0 { 4 } else if v & 0x20 != 0 { 5 } else if v & 0x40 != 0 { 6 } else if v & 0x80 != 0 { 7 }
                else if v & 0x100 != 0 { 8 } else if v & 0x200 != 0 { 9 } else if v & 0x400 != 0 { 10 } else if v & 0x800 != 0 { 11 }
                else if v & 0x1000 != 0 { 12 } else if v & 0x2000 != 0 { 13 } else if v & 0x4000 != 0 { 14 } else { 15 };
            assert(v != 0 ==> k < 16 && v & (1u16 << k) != 0) by (bit_vector)
                requires
                    k == (if v & 1 != 0 { 0u16 } else if v & 2 != 0 { 1u16 } else if v & 4 != 0 { 2u16 } else if v & 8 != 0 { 3u16 }
                    else if v & 0x10 != 0 { 4u16 } else if v & 0x20 != 0 { 5u16 } else if v & 0x40 != 0 { 6u16 } else if v & 0x80 != 0 { 7u16 }
                    else if v & 0x100 != 0 { 8u16 } else if v & 0x200 != 0 { 9u16 } else if v & 0x400 != 0 { 10u16 } else if v & 0x800 != 0 { 11u16 }
                    else if v & 0x1000 != 0 { 12u16 } else if v & 0x2000 != 0 { 13u16 } else if v & 0x4000 != 0 { 14u16 } else { 15u16 }),
            ;
        }
        let k = choose|k: u16| k < 16 && #[trigger] (v & (1u16 << k)) != 0;
        lemma_set_bits_below_has(v, 16, k);
    }
}

/// A list of registers with only bits 0 to 7 set names only low registers,
/// at most eight.
pub proof fn lemma_set_bits_low(v: u16)
    requires
        v < 256,
    ensures
        set_bits(v).len() <= 16,
        forall|k: int| 0 <= k < set_bits(v).len() ==> #[trigger] set_bits(v)[k] < 8,
{
    lemma_set_bits_below(v, 16);
    assert forall|k: int| 0 <= k < set_bits(v).len() implies #[trigger] set_bits(v)[k] < 8 by {
        let e = set_bits(v)[k];
        let e16 = e as u16;
        assert(e16 < 16 && v & (1u16 << e16) != 0);
        lemma_list_facts(v, e16);
    }
}

/// A list of registers with bits 8 to 13 clear names low registers and
/// possibly 14 and 15, in increasing order.
pub proof fn lemma_set_bits_list(v: u16)
    requires
        v & 0x3F00u16 == 0,
    ensures
        set_bits(v).len() <= 16,
        forall|k: int|
            0 <= k < set_bits(v).len() ==> #[trigger] set_bits(v)[k] < 8 || set_bits(v)[k] == 14
                || set_bits(v)[k] == 15,
        forall|k: int|
            0 <= k < set_bits(v).len() ==> (#[trigger] set_bits(v)[k] == 15 <==> (k == set_bits(v).len()
                - 1 && v & 0x8000u16 != 0)),
        forall|k: int|
            0 <= k < set_bits(v).len() && v & 0x8000u16 == 0 ==> (#[trigger] set_bits(v)[k] == 14 <==> (k
                == set_bits(v).len() - 1 && v & 0x4000u16 != 0)),
        v & 0x8000u16 != 0 ==> set_bits(v).len() > 0,
        v & 0x4000u16 == 0 ==> forall|k: int| 0 <= k < set_bits(v).len() ==> #[trigger] set_bits(v)[k] != 14,
{
    lemma_set_bits_below(v, 16);
    let s = set_bits(v);
    assert forall|k: int| 0 <= k < s.len() implies #[trigger] s[k] < 8 || s[k] == 14 || s[k] == 15 by {
        let e16 = s[k] as u16;
        lemma_list_facts(v, e16);
    }
    lemma_bit_constants();
    assert forall|k: int| 0 <= k < s.len() && v & 0x4000u16 == 0 implies #[trigger] s[k] != 14 by {
        if s[k] == 14 {
            assert(v & (1u16 << 14u16) != 0);
        }
    }
    if v & 0x8000u16 != 0 {
        assert(set_bits_below(v, 16) == set_bits_below(v, 15).push(15u8)) by {
            lemma_bit_constants();
        }
        lemma_set_bits_below(v, 15);
    } else {
        assert(set_bits_below(v, 16) == set_bits_below(v, 15)) by {
            lemma_bit_constants();
        }
        lemma_set_bits_below(v, 15);
        if v & 0x4000u16 != 0 {
            assert(set_bits_below(v, 15) == set_bits_below(v, 14).push(14u8)) by {
                lemma_bit_constants();
            }
            lemma_set_bits_below(v, 14);
        } else {
            assert(set_bits_below(v, 15) == set_bits_below(v, 14)) by {
                lemma_bit_constants();
            }
            lemma_set_bits_below(v, 14);
        }
    }
}

/// Facts about the bits of a word `w`, with `s` a bit position, that the
/// simulator's alignment, flag and shift reasoning uses.
pub proof fn lemma_word_facts(w: u32, s: u32)
    by (bit_vector)
    ensures
        w & 1u32 != 0 ==> w % 2 == 1,
        w & 1u32 == 0 ==> w % 2 == 0,
        w & 1u32 == 0 ==> (w as int) % 2048 + 2 <= 2048,
        w & 1u32 == 0 ==> (w as int) % 2048 + 4 <= 2048 || (w as int) % 2048 == 2046,
        w & 3u32 == 0 ==> (w as int) % 2048 + 4 <= 2048,
        w & 3u32 == 0 && w <= 0xFFFF_FFFBu32 ==> ((w + 4) as u32) & 3u32 == 0 && (((w + 4) as u32)
            as int) % 2048 + 4 <= 2048,
        w & 3u32 == 0 && w <= 0xFFFF_FFDFu32 ==> ((w + 32) as u32) & 3u32 == 0,
        (w & 0xE000_0000u32) >> 29u32 <= 7,
        w | 0u32 == w,
        0x8000_0000u32 & w == w & 0x8000_0000u32,
        (w & !4u32) & 3u32 == 0 <==> w & 3u32 == 0,
        w | (1u32 << 31u32) == w | 0x8000_0000u32,
        w & !(1u32 << 31u32) == w & !0x8000_0000u32,
        w | (1u32 << 30u32) == w | 0x4000_0000u32,
        w & !(1u32 << 30u32) == w & !0x4000_0000u32,
        w | (1u32 << 24u32) == w | 0x0100_0000u32,
        w & !(1u32 << 24u32) == w & !0x0100_0000u32,
        (w & !2u32) & 2u32 == 0,
        (w | 2u32) & 2u32 != 0,
        (w & !2u32) & 1u32 == w & 1u32,
        (w | 2u32) & 1u32 == w & 1u32,
        (w & 0x0300_0000u32) >> 24u32 == (w >> 24u32) & 3u32,
        (w & 0x0300_0000u32) >> 24u32 <= 3,
        (w & 0xC000_0000u32) >> 30u32 <= 3,
        (w & 0x00C0_0000u32) >> 22u32 <= 3,
        w & 0x8000_0000u32 != 0 <==> w >= 0x8000_0000u32,
        !w == (0xFFFF_FFFFu32 - w) as u32,
        s < 32 ==> (((1u32 << s) & w) != 0 <==> (w >> s) & 1u32 == 1u32),
        s < 32 ==> ((w & (1u32 << s)) != 0 <==> (w >> s) & 1u32 == 1u32),
{
}

/// Values of constant bit expressions.
pub proof fn lemma_bit_constants()
    by (bit_vector)
    ensures
        1u32 << 28u32 == 0x1000_0000u32,
        1u32 << 29u32 == 0x2000_0000u32,
        1u32 << 30u32 == 0x4000_0000u32,
        1u32 << 31u32 == 0x8000_0000u32,
        1u32 << 9u32 == 0x200u32,
        1u32 >> 3u32 == 0,
        0u32 >> 3u32 == 0,
        0u32 | 0u32 == 0u32,
        (0u8 as u32) | ((0u8 as u32) << 8u32) | ((0u8 as u32) << 16u32) | ((0u8 as u32) << 24u32) == 0,
        0x4u8 | 0x10u8 == 0x14u8,
        0x8u8 | 0x10u8 == 0x18u8,
        0x20u8 | 0x10u8 == 0x30u8,
        0xF000_0000u32 | 0x3Fu32 == 0xF000_003Fu32,
        0x0100_0200u32 | 0xF000_0000u32 == 0xF100_0200u32,
        0xF000_0000u32 | 0x3Fu32 | 0x0100_0200u32 == 0xF100_023Fu32,
        0x3Fu32 | 0x0100_0200u32 == 0x0100_023Fu32,
        1u16 << 15u16 == 0x8000u16,
        1u16 << 14u16 == 0x4000u16,
{
}

/// Facts about the bits of a half word list `v`, with `e` a bit position.
pub proof fn lemma_list_facts(v: u16, e: u16)
    by (bit_vector)
    ensures
        v < 256 && e < 16 && v & (1u16 << e) != 0 ==> e < 8,
        v & 0x3F00u16 == 0 && e < 16 && v & (1u16 << e) != 0 ==> e < 8 || e == 14 || e == 15,
        (1u16 << e) & v == v & (1u16 << e),
{
}

} // verus!
