//! The arithmetic and logic of the instruction set: additions with carry,
//! shifts, rotations and the condition codes of branches.
use vstd::prelude::*;
use crate::binutils::{BitField, signed_bitfield, spec_signed_bitfield, from_arm_bytes, le_u32};
use crate::system::registers::{
    Apsr,
    apsr_flag,
    with_flag,
    set_carry_bit,
    clear_carry_bit,
    set_overflow_bit,
    clear_overflow_bit,
    set_zero_bit,
    clear_zero_bit,
};
use crate::thumb::decode::{Opcode, B16};

verus! {

/// The four condition flags of the status register.
#[derive(Debug, PartialEq, Eq, Structural, Clone, Copy)]
pub struct ConditionFlags {
    pub carry: bool,
    pub negative: bool,
    pub zero: bool,
    pub overflow: bool,
}

/// The flags that an arithmetic result sets: N from bit 31, Z when it is zero.
pub open spec fn result_flags(result: u32, carry: bool, overflow: bool) -> ConditionFlags {
    ConditionFlags { carry, negative: result & 0x8000_0000u32 != 0, zero: result == 0, overflow }
}

/// `AddWithCarry` of the architecture, for `L` bit operands: the sum taken
/// modulo 2^32, whether the unsigned sum did not fit in 32 bits, and whether
/// the signed sum differs from the result read as an `L` bit signed number.
pub open spec fn spec_add_with_carry(l: u32, a: u32, b: u32, carry: u32) -> (u32, bool, bool) {
    let u_sum = a as int + b as int + carry as int;
    let result = (u_sum % 0x1_0000_0000) as u32;
    let s_sum = spec_signed_bitfield(l, a) as int + spec_signed_bitfield(l, b) as int + (
    carry as i32) as int;
    (result, result as int != u_sum, spec_signed_bitfield(l, result) as int != s_sum)
}

proof fn lemma_low_word(u: u64)
    by (bit_vector)
    ensures
        u & 0xFFFF_FFFFu64 == u % 0x1_0000_0000u64,
{
}

/// Adds two `L` bit fields and a carry: the 32 bit result, the carry out and
/// the signed overflow.
pub fn add_with_carry<const L: u32>(a: BitField<L>, b: BitField<L>, carry: u32) -> (r: (
    u32,
    bool,
    bool,
))
    requires
        1 <= L <= 32,
    ensures
        r == spec_add_with_carry(L, a.0, b.0, carry),
{
    let u_sum: u64 = (a.0 as u64) + (b.0 as u64) + (carry as u64);
    proof {
        lemma_low_word(u_sum);
    }
    let s_sum: i64 = (signed_bitfield::<L>(a) as i64) + (signed_bitfield::<L>(b) as i64) + ((
    carry as i32) as i64);
    let result: u32 = (u_sum & 0xFFFF_FFFF) as u32;
    let carry_out = result as u64 != u_sum;
    let overflow = (signed_bitfield::<L>(BitField::<L>(result)) as i64) != s_sum;
    (result, carry_out, overflow)
}

/// A word read as a two's complement number.
pub open spec fn word_signed(v: u32) -> int {
    if v >= 0x8000_0000u32 {
        v as int - 0x1_0000_0000
    } else {
        v as int
    }
}

proof fn lemma_signed_word(v: u32)
    ensures
        spec_signed_bitfield(32, v) as int == word_signed(v),
{
    crate::binutils::lemma_word_facts(v, 0);
    crate::binutils::lemma_bit_constants();
    vstd::arithmetic::power2::lemma2_to64();
}

/// For 32 bit operands `AddWithCarry` is the architecture's definition: the
/// result is the sum modulo 2^32, C is set exactly when the unsigned sum needs
/// 33 bits and V exactly when the signed sum leaves the range of `i32`.
pub proof fn lemma_add_with_carry_word(a: u32, b: u32, carry: bool)
    ensures
        ({
            let c: u32 = if carry { 1 } else { 0 };
            let (r, c_out, v) = spec_add_with_carry(32, a, b, c);
            &&& r as int == (a as int + b as int + c as int) % 0x1_0000_0000
            &&& c_out <==> a as int + b as int + c as int >= 0x1_0000_0000
            &&& v <==> !(i32::MIN <= word_signed(a) + word_signed(b) + c as int <= i32::MAX)
        }),
{
    let c: u32 = if carry { 1 } else { 0 };
    let (r, c_out, v) = spec_add_with_carry(32, a, b, c);
    lemma_signed_word(a);
    lemma_signed_word(b);
    lemma_signed_word(r);
    assert((c as i32) as int == c as int);
}

/// Adds two words: their sum modulo 2^32 and the flags of `ADDS`.
pub fn add_immediate(a: u32, b: u32) -> (r: (u32, ConditionFlags))
    ensures
        ({
            let (sum, carry, overflow) = spec_add_with_carry(32, a, b, 0);
            r == (sum, result_flags(sum, carry, overflow))
        }),
{
    let (sum, carry, overflow) = add_with_carry::<32>(BitField(a), BitField(b), 0);
    let zero = sum == 0;
    let negative = (sum & 0x8000_0000) != 0;
    (sum, ConditionFlags { carry, negative, zero, overflow })
}

/// Adds with the carry flag of `apsr` and writes the C, V and Z flags of the
/// sum back to it (N is left as it was).
fn do_adc(apsr: &mut Apsr, a: u32, b: u32) -> (r: u32)
    ensures
        ({
            let c: u32 = if apsr_flag(*old(apsr), 29) { 1 } else { 0 };
            let (sum, carry, overflow) = spec_add_with_carry(32, a, b, c);
            &&& r == sum
            &&& *final(apsr) == with_flag(
                with_flag(with_flag(*old(apsr), 29, carry), 28, overflow),
                30,
                sum == 0,
            )
        }),
{
    let c: u32 = if carry_flag(*apsr) { 1 } else { 0 };
    let (sum, carry, overflow) = add_with_carry::<32>(BitField(a), BitField(b), c);
    if carry {
        set_carry_bit(apsr);
    } else {
        clear_carry_bit(apsr);
    }
    if overflow {
        set_overflow_bit(apsr);
    } else {
        clear_overflow_bit(apsr);
    }
    if sum == 0 {
        set_zero_bit(apsr);
    } else {
        clear_zero_bit(apsr);
    }
    sum
}

/// The negative flag (N).
pub fn negative_flag(apsr: Apsr) -> (r: bool)
    ensures
        r == apsr_flag(apsr, 31),
{
    proof {
        crate::binutils::lemma_bit_constants();
    }
    (from_arm_bytes(apsr) & 0x8000_0000) != 0
}

/// The zero flag (Z).
pub fn zero_flag(apsr: Apsr) -> (r: bool)
    ensures
        r == apsr_flag(apsr, 30),
{
    proof {
        crate::binutils::lemma_bit_constants();
    }
    (from_arm_bytes(apsr) & 0x4000_0000) != 0
}

/// The carry flag (C).
pub fn carry_flag(apsr: Apsr) -> (r: bool)
    ensures
        r == apsr_flag(apsr, 29),
{
    proof {
        crate::binutils::lemma_bit_constants();
    }
    (from_arm_bytes(apsr) & 0x2000_0000) != 0
}

/// The overflow flag (V).
pub fn overflow_flag(apsr: Apsr) -> (r: bool)
    ensures
        r == apsr_flag(apsr, 28),
{
    proof {
        crate::binutils::lemma_bit_constants();
    }
    (from_arm_bytes(apsr) & 0x1000_0000) != 0
}

/// Whether `code` is a branch that `cond_passed` can judge.
pub open spec fn is_branch_condition(code: Opcode) -> bool {
    match code {
        Opcode::_16Bit(op) => match op {
            B16::BEQ | B16::BNEQ | B16::B_CARRY_IS_SET | B16::B_CARRY_IS_CLEAR | B16::B_IF_NEGATIVE
            | B16::B_IF_POSITIVE | B16::B_IF_OVERFLOW | B16::B_IF_NO_OVERFLOW
            | B16::B_UNSIGNED_HIGHER | B16::B_UNSIGNED_LOWER_OR_SAME | B16::B_GTE | B16::B_LT
            | B16::B_GT | B16::B_LTE | B16::B_ALWAYS => true,
            _ => false,
        },
        _ => false,
    }
}

/// Whether the branch `code` is taken under the flags of `apsr`.
pub open spec fn spec_cond_passed(apsr: Apsr, code: Opcode) -> bool {
    let n = apsr_flag(apsr, 31);
    let z = apsr_flag(apsr, 30);
    let c = apsr_flag(apsr, 29);
    let v = apsr_flag(apsr, 28);
    match code {
        Opcode::_16Bit(B16::BEQ) => z,
        Opcode::_16Bit(B16::BNEQ) => !z,
        Opcode::_16Bit(B16::B_CARRY_IS_SET) => c,
        Opcode::_16Bit(B16::B_CARRY_IS_CLEAR) => !c,
        Opcode::_16Bit(B16::B_IF_NEGATIVE) => n,
        Opcode::_16Bit(B16::B_IF_POSITIVE) => !n,
        Opcode::_16Bit(B16::B_IF_OVERFLOW) => v,
        Opcode::_16Bit(B16::B_IF_NO_OVERFLOW) => !v,
        Opcode::_16Bit(B16::B_UNSIGNED_HIGHER) => c && !z,
        Opcode::_16Bit(B16::B_UNSIGNED_LOWER_OR_SAME) => !c || z,
        Opcode::_16Bit(B16::B_GTE) => n == v,
        Opcode::_16Bit(B16::B_LT) => n != v,
        Opcode::_16Bit(B16::B_GT) => !z && n == v,
        Opcode::_16Bit(B16::B_LTE) => z && n != v,
        _ => true,
    }
}

/// Whether the conditional branch `b_cond` is taken under the flags of `apsr`.
pub fn cond_passed(apsr: Apsr, b_cond: &Opcode) -> (r: bool)
    requires
        is_branch_condition(*b_cond),
    ensures
        r == spec_cond_passed(apsr, *b_cond),
{
    let n = negative_flag(apsr);
    let z = zero_flag(apsr);
    let c = carry_flag(apsr);
    let v = overflow_flag(apsr);
    match b_cond {
        Opcode::_16Bit(B16::BEQ) => z,
        Opcode::_16Bit(B16::BNEQ) => !z,
        Opcode::_16Bit(B16::B_CARRY_IS_SET) => c,
        Opcode::_16Bit(B16::B_CARRY_IS_CLEAR) => !c,
        Opcode::_16Bit(B16::B_IF_NEGATIVE) => n,
        Opcode::_16Bit(B16::B_IF_POSITIVE) => !n,
        Opcode::_16Bit(B16::B_IF_OVERFLOW) => v,
        Opcode::_16Bit(B16::B_IF_NO_OVERFLOW) => !v,
        Opcode::_16Bit(B16::B_UNSIGNED_HIGHER) => c && !z,
        Opcode::_16Bit(B16::B_UNSIGNED_LOWER_OR_SAME) => !c || z,
        Opcode::_16Bit(B16::B_GTE) => n == v,
        Opcode::_16Bit(B16::B_LT) => n != v,
        Opcode::_16Bit(B16::B_GT) => !z && (n == v),
        Opcode::_16Bit(B16::B_LTE) => z && (n != v),
        _ => true,
    }
}

/// The conditions come in complementary pairs: EQ and NE, CS and CC, MI
/// and PL, VS and VC, HI and LS, GE and LT; exactly one of each pair holds
/// under any flags, and AL always holds.
pub proof fn lemma_condition_pairs(apsr: Apsr)
    ensures
        spec_cond_passed(apsr, Opcode::_16Bit(B16::BEQ)) == !spec_cond_passed(apsr, Opcode::_16Bit(B16::BNEQ)),
        spec_cond_passed(apsr, Opcode::_16Bit(B16::B_CARRY_IS_SET)) == !spec_cond_passed(
            apsr,
            Opcode::_16Bit(B16::B_CARRY_IS_CLEAR),
        ),
        spec_cond_passed(apsr, Opcode::_16Bit(B16::B_IF_NEGATIVE)) == !spec_cond_passed(
            apsr,
            Opcode::_16Bit(B16::B_IF_POSITIVE),
        ),
        spec_cond_passed(apsr, Opcode::_16Bit(B16::B_IF_OVERFLOW)) == !spec_cond_passed(
            apsr,
            Opcode::_16Bit(B16::B_IF_NO_OVERFLOW),
        ),
        spec_cond_passed(apsr, Opcode::_16Bit(B16::B_UNSIGNED_HIGHER)) == !spec_cond_passed(
            apsr,
            Opcode::_16Bit(B16::B_UNSIGNED_LOWER_OR_SAME),
        ),
        spec_cond_passed(apsr, Opcode::_16Bit(B16::B_GTE)) == !spec_cond_passed(apsr, Opcode::_16Bit(B16::B_LT)),
        spec_cond_passed(apsr, Opcode::_16Bit(B16::B_ALWAYS)),
{
}

/// The signed conditions are the unsigned pattern over N and V: GT is GE
/// without equality, and HI is CS without equality; LE takes equality
/// together with LT, so it holds only when both do.
pub proof fn lemma_conditions_with_equality(apsr: Apsr)
    ensures
        spec_cond_passed(apsr, Opcode::_16Bit(B16::B_GT)) == (spec_cond_passed(apsr, Opcode::_16Bit(B16::B_GTE))
            && !spec_cond_passed(apsr, Opcode::_16Bit(B16::BEQ))),
        spec_cond_passed(apsr, Opcode::_16Bit(B16::B_UNSIGNED_HIGHER)) == (spec_cond_passed(
            apsr,
            Opcode::_16Bit(B16::B_CARRY_IS_SET),
        ) && !spec_cond_passed(apsr, Opcode::_16Bit(B16::BEQ))),
        spec_cond_passed(apsr, Opcode::_16Bit(B16::B_LTE)) == (spec_cond_passed(apsr, Opcode::_16Bit(B16::B_LT))
            && spec_cond_passed(apsr, Opcode::_16Bit(B16::BEQ))),
        spec_cond_passed(apsr, Opcode::_16Bit(B16::B_GT)) == ((le_u32(apsr) & 0x4000_0000u32 == 0) && ((le_u32(apsr)
            & 0x8000_0000u32 == 0) == (le_u32(apsr) & 0x1000_0000u32 == 0))),
{
    crate::binutils::lemma_bit_constants();
}

/// A word read as a two's complement number.
pub open spec fn signed_value(v: u32) -> int {
    if v < 0x8000_0000 {
        v as int
    } else {
        v as int - 0x1_0000_0000
    }
}

proof fn lemma_top_bit(r: u32)
    by (bit_vector)
    ensures
        (r & 0x8000_0000u32 != 0) == (r >= 0x8000_0000u32),
        1u32 << 31u32 == 0x8000_0000u32,
{
}

/// After `CMP a, b` each branch condition compares `a` with `b`: EQ and NE
/// by equality, CS, CC, HI and LS as unsigned numbers, and GE, LT and GT as
/// two's complement numbers.
pub proof fn lemma_branch_after_compare(x: Apsr, a: u32, b: u32)
    ensures
        ({
            let apsr = super::apsr_with_flags(x, subtract_flags(a, b));
            &&& spec_cond_passed(apsr, Opcode::_16Bit(B16::BEQ)) == (a == b)
            &&& spec_cond_passed(apsr, Opcode::_16Bit(B16::BNEQ)) == (a != b)
            &&& spec_cond_passed(apsr, Opcode::_16Bit(B16::B_CARRY_IS_SET)) == (a >= b)
            &&& spec_cond_passed(apsr, Opcode::_16Bit(B16::B_CARRY_IS_CLEAR)) == (a < b)
            &&& spec_cond_passed(apsr, Opcode::_16Bit(B16::B_UNSIGNED_HIGHER)) == (a > b)
            &&& spec_cond_passed(apsr, Opcode::_16Bit(B16::B_UNSIGNED_LOWER_OR_SAME)) == (a <= b)
            &&& spec_cond_passed(apsr, Opcode::_16Bit(B16::B_GTE)) == (signed_value(a) >= signed_value(b))
            &&& spec_cond_passed(apsr, Opcode::_16Bit(B16::B_LT)) == (signed_value(a) < signed_value(b))
            &&& spec_cond_passed(apsr, Opcode::_16Bit(B16::B_GT)) == (signed_value(a) > signed_value(b))
        }),
{
    let f = subtract_flags(a, b);
    super::lemma_flags_read_back(x, f);
    lemma_subtract(a, b);
    crate::binutils::lemma_word_facts(b, 0);
    vstd::arithmetic::power2::lemma2_to64();
    let (r, c, v) = spec_add_with_carry(32, a, !b, 1);
    lemma_top_bit(r);
    lemma_top_bit(a);
    lemma_top_bit(!b);
    assert(spec_signed_bitfield(32, !b) as int == -signed_value(b) - 1);
    assert(spec_signed_bitfield(32, a) as int == signed_value(a));
    assert(spec_signed_bitfield(32, r) as int == signed_value(r));
    assert(r as int == (a as int - b as int + 0x1_0000_0000) % 0x1_0000_0000);
    assert(f.negative == (signed_value(r) < 0));
    assert(f.overflow == (signed_value(r) != signed_value(a) - signed_value(b)));
}

/// The flags of `CMP a, b`: those of the subtraction `a - b`.
pub fn compare(a: u32, b: u32) -> (r: ConditionFlags)
    ensures
        r == subtract_flags(a, b),
{
    let (_, flags) = subtract(a, b);
    flags
}

/// The flags of `a - b`, computed as `a + !b + 1`.
pub open spec fn subtract_flags(a: u32, b: u32) -> ConditionFlags {
    let (sum, carry, overflow) = spec_add_with_carry(32, a, !b, 1);
    result_flags(sum, carry, overflow)
}

/// Subtracts `b` from `a` as `a + !b + 1`: the difference and its flags.
pub fn subtract(a: u32, b: u32) -> (r: (u32, ConditionFlags))
    ensures
        r.0 == spec_add_with_carry(32, a, !b, 1).0,
        r.1 == subtract_flags(a, b),
{
    let (sum, carry, overflow) = add_with_carry::<32>(BitField(a), BitField(!b), 1);
    let negative = (sum & 0x8000_0000) != 0;
    (sum, ConditionFlags { carry, negative, zero: sum == 0, overflow })
}

/// Subtraction and comparison: the difference is `a - b` modulo 2^32, Z is
/// set exactly when `a == b`, and C (no borrow) exactly when `a >= b`.
pub proof fn lemma_subtract(a: u32, b: u32)
    ensures
        spec_add_with_carry(32, a, !b, 1).0 as int == (a as int - b as int + 0x1_0000_0000)
            % 0x1_0000_0000,
        subtract_flags(a, b).zero <==> a == b,
        subtract_flags(a, b).carry <==> a >= b,
{
    crate::binutils::lemma_word_facts(b, 0);
    let s = a as int + (!b) as int + 1;
    assert(s == a as int - b as int + 0x1_0000_0000);
    assert(s % 0x1_0000_0000 == 0 <==> a == b) by {
        if a >= b {
            assert(s % 0x1_0000_0000 == a as int - b as int);
        } else {
            assert(s % 0x1_0000_0000 == s);
        }
    }
}

/// Multiplies two words: the low 32 bits of the product, and whether they
/// are negative and zero.
pub fn multiply(a: u32, b: u32) -> (r: (u32, bool, bool))
    ensures
        r.0 as int == (a as int * b as int) % 0x1_0000_0000,
        r.1 == (r.0 & 0x8000_0000u32 != 0),
        r.2 == (r.0 == 0),
{
    let product = a.wrapping_mul(b);
    let negative = (product & 0x8000_0000) != 0;
    let zero = product == 0;
    (product, negative, zero)
}

/// Adds `a`, `b` and a carry: the sum and the flags of `ADCS`.
pub fn adc_flags(a: u32, b: u32, carry: bool) -> (r: (u32, ConditionFlags))
    ensures
        ({
            let c: u32 = if carry { 1 } else { 0 };
            let (sum, c_out, overflow) = spec_add_with_carry(32, a, b, c);
            r == (sum, result_flags(sum, c_out, overflow))
        }),
{
    let c: u32 = if carry { 1 } else { 0 };
    let (sum, carry_out, overflow) = add_with_carry::<32>(BitField(a), BitField(b), c);
    let flags = ConditionFlags {
        negative: (sum & 0x8000_0000) != 0,
        carry: carry_out,
        zero: sum == 0,
        overflow,
    };
    (sum, flags)
}

/// `val` shifted right by `amount` with copies of its sign bit shifted in.
pub open spec fn spec_asr(val: u32, amount: u32) -> u32 {
    if val & 0x8000_0000u32 != 0 {
        (val >> amount) | (u32::MAX << ((32 - amount) as u32))
    } else {
        val >> amount
    }
}

/// Arithmetic shift right by `ammount` (1 to 31): the result, N from the
/// sign of `val`, C from the last bit shifted out, and V as given.
pub fn asr(val: u32, ammount: u32, overflow: bool) -> (r: (u32, ConditionFlags))
    requires
        1 <= ammount <= 31,
    ensures
        r.0 == spec_asr(val, ammount),
        r.1 == (ConditionFlags {
            negative: val & 0x8000_0000u32 != 0,
            zero: spec_asr(val, ammount) == 0,
            carry: (val >> ((ammount - 1) as u32)) & 1u32 == 1u32,
            overflow,
        }),
{
    let signed = (val & 0x8000_0000) != 0;
    let signed_bits: u32 = u32::MAX << (32 - ammount);
    let result = if signed {
        (val >> ammount) | signed_bits
    } else {
        val >> ammount
    };
    let carry = (val & (1u32 << (ammount - 1))) != 0;
    proof {
        crate::binutils::lemma_word_facts(val, (ammount - 1) as u32);
    }
    (result, ConditionFlags { negative: signed, zero: result == 0, carry, overflow })
}

/// Logical shift right by `shift` (1 to 31): the result and its flags, C
/// from the last bit shifted out and V as given.
pub fn shift_right(a: u32, shift: u32, overflow: bool) -> (r: (u32, ConditionFlags))
    requires
        1 <= shift <= 31,
    ensures
        r.0 == a >> shift,
        r.1 == result_flags(a >> shift, (a >> ((shift - 1) as u32)) & 1u32 == 1u32, overflow),
{
    let last_discarded_bit = ((1u32 << (shift - 1)) & a) != 0;
    proof {
        crate::binutils::lemma_word_facts(a, (shift - 1) as u32);
    }
    let result = a >> shift;
    let is_negative = (result & 0x8000_0000) != 0;
    (result, ConditionFlags { carry: last_discarded_bit, negative: is_negative, zero: result == 0, overflow })
}

/// Logical shift left by `shift` (1 to 31): the result and its flags, C from
/// the last bit shifted out and V as given.
pub fn shift_left(a: u32, shift: u32, overflow: bool) -> (r: (u32, ConditionFlags))
    requires
        1 <= shift <= 31,
    ensures
        r.0 == a << shift,
        r.1 == result_flags(a << shift, (a >> ((32 - shift) as u32)) & 1u32 == 1u32, overflow),
{
    let last_discarded_bit = ((1u32 << (32 - shift)) & a) != 0;
    proof {
        crate::binutils::lemma_word_facts(a, (32 - shift) as u32);
    }
    let result = a << shift;
    let negative = (result & 0x8000_0000) != 0;
    (result, ConditionFlags { carry: last_discarded_bit, negative, zero: result == 0, overflow })
}

/// `a` rotated right by `rotate` modulo 32 bits.
pub open spec fn spec_ror(a: u32, rotate: u32) -> u32 {
    (a << ((32 - rotate % 32) as u32)) | (a >> (rotate % 32))
}

/// Rotates right by `rotate` (not a multiple of 32): the result, with C and
/// N both bit 31 of it and V as given.
pub fn ror(a: u32, rotate: u32, overflow: bool) -> (r: (u32, ConditionFlags))
    requires
        rotate % 32 != 0,
    ensures
        r.0 == spec_ror(a, rotate),
        r.1 == result_flags(spec_ror(a, rotate), spec_ror(a, rotate) & 0x8000_0000u32 != 0, overflow),
{
    let r_amt = rotate % 32;
    let left_shift = 32 - r_amt;
    let result = (a << left_shift) | (a >> r_amt);
    let top = (result & 0x8000_0000) != 0;
    (result, ConditionFlags { carry: top, negative: top, zero: result == 0, overflow })
}

/// Exclusive or: the result, C cleared and V as given.
pub fn xor(a: u32, b: u32, overflow: bool) -> (r: (u32, ConditionFlags))
    ensures
        r.0 == a ^ b,
        r.1 == result_flags(a ^ b, false, overflow),
{
    let r = a ^ b;
    (r, ConditionFlags { carry: false, negative: (r & 0x8000_0000) != 0, zero: r == 0, overflow })
}

} // verus!
