//! Running one instruction: what each instruction does to the registers,
//! the flags and memory.
use vstd::prelude::*;
use crate::binutils::{le_u32, le_bytes_u32, sign_extended, sign_extend_u32};
use crate::thumb::decode::{B16, B32, Opcode};
use crate::thumb::decode_operands::Operands;
use crate::thumb::{DestRegister, SrcRegister, Register};
use super::registers::{Registers, Apsr, apsr_flag};
use super::instructions::{
    ConditionFlags, spec_add_with_carry, result_flags, subtract_flags, spec_asr, spec_ror,
    add_immediate, adc_flags, subtract, compare, asr, shift_left, shift_right, ror, xor, multiply,
    carry_flag, overflow_flag,
};
use super::{System, ArmException, apsr_with_flags, nz_word, spec_load, load_defined, write_defined, write_ok, write_post, load_memory, write_memory, word_of};
use crate::binutils::{from_arm_bytes, from_arm_bytes_16b, u32_to_arm_bytes, u16_to_arm_bytes, le_bytes_u16, le_u16};
use super::handlers::{
    bx_defined, bx_post, actives_valid, spec_execution_priority, words_bytes, word_pages, outside_ppb,
    lemma_frame_step, lemma_word_read,
};
use super::allocator::{written, byte_in, PAGE_SIZE};
use crate::binutils::{get_set_bits, set_bits, lemma_set_bits_low, lemma_set_bits_list};
use super::{aligned, with_sp};
use super::instructions::{is_branch_condition, spec_cond_passed, cond_passed};
use super::exceptions::spec_priority_group;

verus! {

/// General register `r` of `s`.
pub open spec fn gr(s: System, r: u8) -> u32 {
    s.registers.generic[r as int]
}

/// The carry flag of `s` as a number.
pub open spec fn carry_in(s: System) -> u32 {
    if apsr_flag(s.xpsr, 29) {
        1
    } else {
        0
    }
}

/// The flags of an addition with carry of `a`, `b` and `c`.
pub open spec fn awc_flags(a: u32, b: u32, c: u32) -> ConditionFlags {
    let (sum, co, ov) = spec_add_with_carry(32, a, b, c);
    result_flags(sum, co, ov)
}

/// The four bytes of `v` in reverse order.
pub open spec fn byte_reverse(v: u32) -> u32 {
    ((v & 0xFFu32) << 24u32) | ((v & 0xFF00u32) << 8u32) | ((v & 0xFF_0000u32) >> 8u32) | ((v
        & 0xFF00_0000u32) >> 24u32)
}

/// The bytes of each half word of `v` swapped.
pub open spec fn half_reverse(v: u32) -> u32 {
    ((v & 0xFF_0000u32) << 8u32) | ((v & 0xFF00_0000u32) >> 8u32) | ((v & 0xFFu32) << 8u32) | ((v
        & 0xFF00u32) >> 8u32)
}

/// The low half word of `v` byte swapped and sign extended.
pub open spec fn signed_half_reverse(v: u32) -> u32 {
    (sign_extended(8, v & 0xFFu32) & 0xFFFF_FF00u32) | ((v & 0xFF00u32) >> 8u32)
}

/// What a data processing instruction does: the register it writes and
/// its value, if any, and the status register after it.
pub open spec fn alu_effect(s: System, code: B16, ops: Operands) -> (Option<(u8, u32)>, Apsr) {
    let x = s.xpsr;
    let c = apsr_flag(x, 29);
    let v = apsr_flag(x, 28);
    match (code, ops) {
        (B16::ADCS, Operands::RegisterPair(d, m)) => {
            let a = gr(s, d.0);
            let b = gr(s, m.0);
            (Some((d.0, spec_add_with_carry(32, a, b, carry_in(s)).0)), apsr_with_flags(x, awc_flags(a, b, carry_in(s))))
        },
        (B16::ADD_Imm3, Operands::RegPairImm3(d, n, imm)) => {
            let a = gr(s, n.0);
            (Some((d.0, spec_add_with_carry(32, a, imm.0, 0).0)), apsr_with_flags(x, awc_flags(a, imm.0, 0)))
        },
        (B16::ADD_Imm8, Operands::DestImm8(d, imm)) => {
            let a = gr(s, d.0);
            (Some((d.0, spec_add_with_carry(32, a, imm.0, 0).0)), apsr_with_flags(x, awc_flags(a, imm.0, 0)))
        },
        (B16::ADDS_REG, Operands::RegisterTriplet(d, n, m)) => {
            let a = gr(s, n.0);
            let b = gr(s, m.0);
            (Some((d.0, spec_add_with_carry(32, a, b, 0).0)), apsr_with_flags(x, awc_flags(a, b, 0)))
        },
        (B16::ANDS, Operands::RegisterPair(d, m)) => {
            let r = gr(s, d.0) & gr(s, m.0);
            (Some((d.0, r)), apsr_with_flags(x, result_flags(r, c, v)))
        },
        (B16::ASRS_Imm5, Operands::ASRS_Imm5(d, n, imm)) => {
            let a = gr(s, n.0);
            let r = spec_asr(a, imm.0);
            (Some((d.0, r)), apsr_with_flags(x, ConditionFlags {
                negative: a & 0x8000_0000u32 != 0,
                zero: r == 0,
                carry: (a >> ((imm.0 - 1) as u32)) & 1u32 == 1u32,
                overflow: v,
            }))
        },
        (B16::ASRS_REG, Operands::RegisterPair(d, m)) => {
            let a = gr(s, d.0);
            let sh = (gr(s, m.0) & 0xFFu32) % 32;
            let r = spec_asr(a, sh);
            (Some((d.0, r)), apsr_with_flags(x, ConditionFlags {
                negative: a & 0x8000_0000u32 != 0,
                zero: r == 0,
                carry: (a >> ((sh - 1) as u32)) & 1u32 == 1u32,
                overflow: v,
            }))
        },
        (B16::BIT_CLEAR_REGISTER, Operands::RegisterPair(d, m)) => {
            let r = gr(s, d.0) & !gr(s, m.0);
            (Some((d.0, r)), apsr_with_flags(x, result_flags(r, c, v)))
        },
        (B16::CMP_NEG_REG, Operands::PureRegisterPair(a, b)) => {
            (None, apsr_with_flags(x, awc_flags(gr(s, a.0), gr(s, b.0), 0)))
        },
        (B16::CMP_Imm8, Operands::CMP_Imm8(n, imm)) => {
            (None, apsr_with_flags(x, subtract_flags(gr(s, n.0), imm.0)))
        },
        (B16::CMP_REG_T1, Operands::PureRegisterPair(a, b)) => {
            (None, apsr_with_flags(x, subtract_flags(gr(s, a.0), gr(s, b.0))))
        },
        (B16::CMP_REG_T2, Operands::PureRegisterPair(a, b)) => {
            (None, apsr_with_flags(x, subtract_flags(gr(s, a.0), gr(s, b.0))))
        },
        (B16::XOR_REG, Operands::RegisterPair(d, m)) => {
            let r = gr(s, d.0) ^ gr(s, m.0);
            (Some((d.0, r)), apsr_with_flags(x, result_flags(r, false, v)))
        },
        (B16::SUB_Imm3, Operands::RegPairImm3(d, n, imm)) => {
            let a = gr(s, n.0);
            (Some((d.0, spec_add_with_carry(32, a, !imm.0, 1).0)), apsr_with_flags(x, subtract_flags(a, imm.0)))
        },
        (B16::SUB_Imm8, Operands::DestImm8(d, imm)) => {
            let a = gr(s, d.0);
            (Some((d.0, spec_add_with_carry(32, a, !imm.0, 1).0)), apsr_with_flags(x, subtract_flags(a, imm.0)))
        },
        (B16::SUB_REG, Operands::RegisterTriplet(d, n, m)) => {
            let a = gr(s, n.0);
            let b = gr(s, m.0);
            (Some((d.0, spec_add_with_carry(32, a, !b, 1).0)), apsr_with_flags(x, subtract_flags(a, b)))
        },
        (B16::SXTB, Operands::RegisterPair(d, m)) => (Some((d.0, sign_extended(8, gr(s, m.0) & 0xFFu32))), x),
        (B16::SXTH, Operands::RegisterPair(d, m)) => (Some((d.0, sign_extended(16, gr(s, m.0) & 0xFFFFu32))), x),
        (B16::MUL, Operands::RegisterPair(d, m)) => {
            let p = ((gr(s, d.0) as int * gr(s, m.0) as int) % 0x1_0000_0000) as u32;
            (Some((d.0, p)), le_bytes_u32(nz_word(le_u32(x), p)))
        },
        (B16::ORR, Operands::RegisterPair(d, m)) => {
            let r = gr(s, d.0) | gr(s, m.0);
            (Some((d.0, r)), apsr_with_flags(x, result_flags(r, c, v)))
        },
        (B16::LSL_Imm5, Operands::LS_Imm5(d, n, imm)) => {
            let a = gr(s, n.0);
            let r = a << imm.0;
            (Some((d.0, r)), apsr_with_flags(x, result_flags(r, (a >> ((32 - imm.0) as u32)) & 1u32 == 1u32, v)))
        },
        (B16::LSL_REGS, Operands::RegisterPair(d, m)) => {
            let a = gr(s, d.0);
            let sh = gr(s, m.0) & 0xFFu32;
            let r = a << sh;
            (Some((d.0, r)), apsr_with_flags(x, result_flags(r, (a >> ((32 - sh) as u32)) & 1u32 == 1u32, v)))
        },
        (B16::LSR_Imm5, Operands::LS_Imm5(d, n, imm)) => {
            let a = gr(s, n.0);
            let r = a >> imm.0;
            (Some((d.0, r)), apsr_with_flags(x, result_flags(r, (a >> ((imm.0 - 1) as u32)) & 1u32 == 1u32, v)))
        },
        (B16::LSR_REGS, Operands::RegisterPair(d, m)) => {
            let a = gr(s, d.0);
            let sh = gr(s, m.0) & 0xFFu32;
            let r = a >> sh;
            (Some((d.0, r)), apsr_with_flags(x, result_flags(r, (a >> ((sh - 1) as u32)) & 1u32 == 1u32, v)))
        },
        (B16::SBC, Operands::RegisterPair(d, m)) => {
            let a = gr(s, d.0);
            let b = !gr(s, m.0);
            (Some((d.0, spec_add_with_carry(32, a, b, carry_in(s)).0)), apsr_with_flags(x, awc_flags(a, b, carry_in(s))))
        },
        (B16::TST, Operands::PureRegisterPair(a, b)) => {
            let r = gr(s, a.0) & gr(s, b.0);
            (None, apsr_with_flags(x, result_flags(r, c, v)))
        },
        (B16::UXTB, Operands::RegisterPair(d, m)) => (Some((d.0, gr(s, m.0) & 0xFFu32)), x),
        (B16::UXTH, Operands::RegisterPair(d, m)) => (Some((d.0, gr(s, m.0) & 0xFFFFu32)), x),
        (B16::REV, Operands::RegisterPair(d, m)) => (Some((d.0, byte_reverse(gr(s, m.0)))), x),
        (B16::REV_16, Operands::RegisterPair(d, m)) => (Some((d.0, half_reverse(gr(s, m.0)))), x),
        (B16::REVSH, Operands::RegisterPair(d, m)) => (Some((d.0, signed_half_reverse(gr(s, m.0)))), x),
        (B16::ROR, Operands::RegisterPair(d, m)) => {
            let r = spec_ror(gr(s, d.0), gr(s, m.0) & 0xFFu32);
            (Some((d.0, r)), apsr_with_flags(x, result_flags(r, r & 0x8000_0000u32 != 0, v)))
        },
        (B16::RSB, Operands::RegisterPair(d, m)) => {
            let a = !gr(s, m.0);
            (Some((d.0, spec_add_with_carry(32, a, 0, 1).0)), apsr_with_flags(x, awc_flags(a, 0, 1)))
        },
        (B16::ADD_REG_SP_IMM8, Operands::ADD_REG_SP_IMM8(d, imm)) => {
            (Some((d.0, spec_add_with_carry(32, s.current_sp(), imm.0, 0).0)), x)
        },
        (B16::ADR, Operands::ADR(d, imm)) => {
            let base = ((s.registers.pc + 4) as u32) & 0xFFFF_FFFCu32;
            (Some((d.0, (base + (imm.0 << 2u32)) as u32)), x)
        },
        _ => (None, x),
    }
}

/// Whether `code` is one of the data processing instructions.
pub open spec fn is_alu(code: B16) -> bool {
    match code {
        B16::ADCS | B16::ADD_Imm3 | B16::ADD_Imm8 | B16::ADDS_REG | B16::ANDS | B16::ASRS_Imm5
        | B16::ASRS_REG | B16::BIT_CLEAR_REGISTER | B16::CMP_NEG_REG | B16::CMP_Imm8
        | B16::CMP_REG_T1 | B16::CMP_REG_T2 | B16::XOR_REG | B16::SUB_Imm3 | B16::SUB_Imm8
        | B16::SUB_REG | B16::SXTB | B16::SXTH | B16::MUL | B16::ORR | B16::LSL_Imm5
        | B16::LSL_REGS | B16::LSR_Imm5 | B16::LSR_REGS | B16::SBC | B16::TST | B16::UXTB
        | B16::UXTH | B16::REV | B16::REV_16 | B16::REVSH | B16::ROR | B16::RSB
        | B16::ADD_REG_SP_IMM8 | B16::ADR => true,
        _ => false,
    }
}

/// The operands of `code` have the shape its decoder gives: the expected
/// variant, low registers, and immediates in range.
pub open spec fn alu_shape(code: B16, ops: Operands) -> bool {
    match (code, ops) {
        (B16::ADCS, Operands::RegisterPair(d, m)) | (B16::ANDS, Operands::RegisterPair(d, m))
        | (B16::ASRS_REG, Operands::RegisterPair(d, m)) | (B16::BIT_CLEAR_REGISTER, Operands::RegisterPair(d, m))
        | (B16::XOR_REG, Operands::RegisterPair(d, m)) | (B16::SXTB, Operands::RegisterPair(d, m))
        | (B16::SXTH, Operands::RegisterPair(d, m)) | (B16::MUL, Operands::RegisterPair(d, m))
        | (B16::ORR, Operands::RegisterPair(d, m)) | (B16::LSL_REGS, Operands::RegisterPair(d, m))
        | (B16::LSR_REGS, Operands::RegisterPair(d, m)) | (B16::SBC, Operands::RegisterPair(d, m))
        | (B16::UXTB, Operands::RegisterPair(d, m)) | (B16::UXTH, Operands::RegisterPair(d, m))
        | (B16::REV, Operands::RegisterPair(d, m)) | (B16::REV_16, Operands::RegisterPair(d, m))
        | (B16::REVSH, Operands::RegisterPair(d, m)) | (B16::ROR, Operands::RegisterPair(d, m))
        | (B16::RSB, Operands::RegisterPair(d, m)) => d.0 < 8 && m.0 < 8,
        (B16::ADD_Imm3, Operands::RegPairImm3(d, n, imm)) | (B16::SUB_Imm3, Operands::RegPairImm3(d, n, imm)) => d.0
            < 8 && n.0 < 8,
        (B16::ADD_Imm8, Operands::DestImm8(d, imm)) | (B16::SUB_Imm8, Operands::DestImm8(d, imm)) => d.0 < 8,
        (B16::ADDS_REG, Operands::RegisterTriplet(d, n, m)) | (B16::SUB_REG, Operands::RegisterTriplet(d, n, m)) => d.0
            < 8 && n.0 < 8 && m.0 < 8,
        (B16::ASRS_Imm5, Operands::ASRS_Imm5(d, n, imm)) => d.0 < 8 && n.0 < 8 && imm.0 < 32,
        (B16::LSL_Imm5, Operands::LS_Imm5(d, n, imm)) | (B16::LSR_Imm5, Operands::LS_Imm5(d, n, imm)) => d.0
            < 8 && n.0 < 8 && imm.0 < 32,
        (B16::CMP_NEG_REG, Operands::PureRegisterPair(a, b)) | (B16::CMP_REG_T1, Operands::PureRegisterPair(a, b))
        | (B16::TST, Operands::PureRegisterPair(a, b)) => a.0 < 8 && b.0 < 8,
        (B16::CMP_REG_T2, Operands::PureRegisterPair(a, b)) => a.0 < 8 && b.0 < 16,
        (B16::CMP_Imm8, Operands::CMP_Imm8(n, imm)) => n.0 < 8,
        (B16::ADD_REG_SP_IMM8, Operands::ADD_REG_SP_IMM8(d, imm)) => d.0 < 8,
        (B16::ADR, Operands::ADR(d, imm)) => d.0 < 8 && imm.0 <= 1020,
        _ => false,
    }
}

/// Whether a data processing instruction runs without a simulator error:
/// shifts by amounts the helpers accept, registers the register file
/// holds, and no overflow of an address.
pub open spec fn alu_ok(s: System, code: B16, ops: Operands) -> bool {
    match (code, ops) {
        (B16::ASRS_Imm5, Operands::ASRS_Imm5(d, n, imm)) => imm.0 != 0,
        (B16::ASRS_REG, Operands::RegisterPair(d, m)) => (gr(s, m.0) & 0xFFu32) % 32 != 0,
        (B16::LSL_Imm5, Operands::LS_Imm5(d, n, imm)) => imm.0 != 0,
        (B16::LSR_Imm5, Operands::LS_Imm5(d, n, imm)) => imm.0 != 0,
        (B16::LSL_REGS, Operands::RegisterPair(d, m)) => 1 <= gr(s, m.0) & 0xFFu32 <= 31,
        (B16::LSR_REGS, Operands::RegisterPair(d, m)) => 1 <= gr(s, m.0) & 0xFFu32 <= 31,
        (B16::ROR, Operands::RegisterPair(d, m)) => (gr(s, m.0) & 0xFFu32) % 32 != 0,
        (B16::CMP_REG_T2, Operands::PureRegisterPair(a, b)) => b.0 <= 12,
        (B16::ADD_REG_SP_IMM8, Operands::ADD_REG_SP_IMM8(d, imm)) => s.sp_usable(),
        (B16::ADR, Operands::ADR(d, imm)) => {
            &&& s.registers.pc + 4 <= usize::MAX
            &&& (((s.registers.pc + 4) as u32) & 0xFFFF_FFFCu32) + (imm.0 << 2u32) <= u32::MAX
        },
        _ => true,
    }
}

/// `new` is `old` after the data processing instruction `code`.
pub open spec fn alu_post(old: System, new: System, code: B16, ops: Operands) -> bool {
    let (w, x2) = alu_effect(old, code, ops);
    &&& new.registers.generic@ == match w {
        Some((d, v)) => old.registers.generic@.update(d as int, v),
        None => old.registers.generic@,
    }
    &&& new == System { registers: Registers { generic: new.registers.generic, ..old.registers }, xpsr: x2, ..old }
}

/// ORRS writes the bitwise OR of its two registers to the first: every bit
/// of the result is set exactly when that bit is set in either register. N
/// is the top bit of the result, Z is set exactly when it is zero, and no
/// other register changes.
pub proof fn lemma_orr_is_bitwise_or(old: System, new: System, d: u8, m: u8)
    requires
        d < 13,
        alu_post(old, new, B16::ORR, Operands::RegisterPair(DestRegister(d), Register(m))),
    ensures
        new.registers.generic[d as int] == old.registers.generic[d as int] | old.registers.generic[m as int],
        forall|b: u32|
            b < 32 ==> (#[trigger] (new.registers.generic[d as int] & (1u32 << b)) != 0) == ((old.registers.generic[d as int] & (
            1u32 << b)) != 0 || (old.registers.generic[m as int] & (1u32 << b)) != 0),
        apsr_flag(new.xpsr, 31) == (new.registers.generic[d as int] & 0x8000_0000u32 != 0),
        apsr_flag(new.xpsr, 30) == (new.registers.generic[d as int] == 0),
        forall|k: int| 0 <= k < 13 && k != d ==> new.registers.generic[k] == old.registers.generic[k],
{
    let x = old.registers.generic[d as int];
    let y = old.registers.generic[m as int];
    assert(new.registers.generic@[d as int] == x | y);
    super::lemma_flags_read_back(old.xpsr, result_flags(x | y, carry_in(old) != 0, apsr_flag(old.xpsr, 28)));
    assert forall|b: u32| b < 32 implies (#[trigger] ((x | y) & (1u32 << b)) != 0) == ((x & (1u32 << b)) != 0 || (y & (1u32 << b)) != 0) by {
        assert(((x | y) & (1u32 << b)) != 0 <==> ((x & (1u32 << b)) != 0 || (y & (1u32 << b)) != 0)) by (bit_vector);
    }
}

/// Bit `b` of `w`.
pub open spec fn bit_set(w: u32, b: u32) -> bool {
    w & (1u32 << b) != 0
}

/// ANDS, EORS and BICS work bit by bit on their two registers: a bit of
/// the result is set when it is set in both (AND), in exactly one (EOR), or
/// in the first and not the second (BIC). N is the top bit of the result,
/// Z is set exactly when it is zero, and no other register changes.
pub proof fn lemma_bitwise_ops(old: System, new: System, code: B16, d: u8, m: u8)
    requires
        d < 13,
        code == B16::ANDS || code == B16::XOR_REG || code == B16::BIT_CLEAR_REGISTER,
        alu_post(old, new, code, Operands::RegisterPair(DestRegister(d), Register(m))),
    ensures
        ({
            let x = old.registers.generic[d as int];
            let y = old.registers.generic[m as int];
            let z = new.registers.generic[d as int];
            &&& forall|b: u32|
                b < 32 ==> #[trigger] bit_set(z, b) == if code == B16::ANDS {
                    bit_set(x, b) && bit_set(y, b)
                } else if code == B16::XOR_REG {
                    bit_set(x, b) != bit_set(y, b)
                } else {
                    bit_set(x, b) && !bit_set(y, b)
                }
            &&& apsr_flag(new.xpsr, 31) == (z & 0x8000_0000u32 != 0)
            &&& apsr_flag(new.xpsr, 30) == (z == 0)
        }),
        forall|k: int| 0 <= k < 13 && k != d ==> new.registers.generic[k] == old.registers.generic[k],
{
    let x = old.registers.generic[d as int];
    let y = old.registers.generic[m as int];
    let z = new.registers.generic[d as int];
    let c = apsr_flag(old.xpsr, 29);
    let v = apsr_flag(old.xpsr, 28);
    if code == B16::ANDS {
        assert(z == x & y);
        super::lemma_flags_read_back(old.xpsr, result_flags(x & y, c, v));
        assert forall|b: u32| b < 32 implies #[trigger] bit_set(z, b) == (bit_set(x, b) && bit_set(y, b)) by {
            assert(((x & y) & (1u32 << b) != 0) == ((x & (1u32 << b) != 0) && (y & (1u32 << b) != 0))) by (bit_vector);
        }
    } else if code == B16::XOR_REG {
        assert(z == x ^ y);
        super::lemma_flags_read_back(old.xpsr, result_flags(x ^ y, false, v));
        assert forall|b: u32| b < 32 implies #[trigger] bit_set(z, b) == (bit_set(x, b) != bit_set(y, b)) by {
            assert(((x ^ y) & (1u32 << b) != 0) == ((x & (1u32 << b) != 0) != (y & (1u32 << b) != 0))) by (bit_vector);
        }
    } else {
        assert(z == x & !y);
        super::lemma_flags_read_back(old.xpsr, result_flags(x & !y, c, v));
        assert forall|b: u32| b < 32 implies #[trigger] bit_set(z, b) == (bit_set(x, b) && !bit_set(y, b)) by {
            assert(((x & !y) & (1u32 << b) != 0) == ((x & (1u32 << b) != 0) && !(y & (1u32 << b) != 0))) by (bit_vector);
        }
    }
}

/// ADDS and SUBS with three registers write the sum and the difference of
/// the two source registers modulo 2^32; an addition sets C exactly when the
/// sum does not fit in 32 bits, a subtraction exactly when nothing was
/// borrowed (the first is at least the second); Z is set exactly when the
/// result is zero. No other register changes.
pub proof fn lemma_add_sub_registers(old: System, new: System, code: B16, d: u8, n: u8, m: u8)
    requires
        d < 13,
        code == B16::ADDS_REG || code == B16::SUB_REG,
        alu_post(old, new, code, Operands::RegisterTriplet(DestRegister(d), SrcRegister(n), Register(m))),
    ensures
        ({
            let a = old.registers.generic[n as int] as int;
            let b = old.registers.generic[m as int] as int;
            let z = new.registers.generic[d as int];
            &&& code == B16::ADDS_REG ==> z as int == (a + b) % 0x1_0000_0000 && apsr_flag(new.xpsr, 29) == (a + b
                >= 0x1_0000_0000)
            &&& code == B16::SUB_REG ==> z as int == (a - b + 0x1_0000_0000) % 0x1_0000_0000 && apsr_flag(new.xpsr, 29)
                == (a >= b)
            &&& apsr_flag(new.xpsr, 30) == (z == 0)
            &&& apsr_flag(new.xpsr, 31) == (z & 0x8000_0000u32 != 0)
        }),
        forall|k: int| 0 <= k < 13 && k != d ==> new.registers.generic[k] == old.registers.generic[k],
{
    let a = old.registers.generic[n as int];
    let b = old.registers.generic[m as int];
    if code == B16::ADDS_REG {
        super::lemma_flags_read_back(old.xpsr, awc_flags(a, b, 0));
    } else {
        super::lemma_flags_read_back(old.xpsr, subtract_flags(a, b));
        super::instructions::lemma_subtract(a, b);
    }
}

/// MULS writes the product of its two registers modulo 2^32, and ADCS the
/// sum of its two registers and the carry flag modulo 2^32, setting C
/// exactly when that sum does not fit in 32 bits. No other register
/// changes.
pub proof fn lemma_multiply_and_carry(old: System, new: System, code: B16, d: u8, m: u8)
    requires
        d < 13,
        code == B16::MUL || code == B16::ADCS,
        alu_post(old, new, code, Operands::RegisterPair(DestRegister(d), Register(m))),
    ensures
        ({
            let a = old.registers.generic[d as int] as int;
            let b = old.registers.generic[m as int] as int;
            let c: int = if apsr_flag(old.xpsr, 29) { 1 } else { 0 };
            let z = new.registers.generic[d as int];
            &&& code == B16::MUL ==> z as int == (a * b) % 0x1_0000_0000
            &&& code == B16::ADCS ==> z as int == (a + b + c) % 0x1_0000_0000 && apsr_flag(new.xpsr, 29) == (a + b + c
                >= 0x1_0000_0000)
        }),
        forall|k: int| 0 <= k < 13 && k != d ==> new.registers.generic[k] == old.registers.generic[k],
{
    let a = old.registers.generic[d as int];
    let b = old.registers.generic[m as int];
    if code == B16::ADCS {
        super::lemma_flags_read_back(old.xpsr, awc_flags(a, b, carry_in(old)));
    }
}

proof fn lemma_extend_bits(w: u32)
    by (bit_vector)
    ensures
        w & 0xFFu32 == w % 0x100,
        w & 0xFFFFu32 == w % 0x1_0000,
        (w & 0xFFu32) & 0x80u32 == 0 ==> sign_extended(8, w & 0xFFu32) == w & 0xFFu32,
        (w & 0xFFu32) & 0x80u32 != 0 ==> sign_extended(8, w & 0xFFu32) == (w & 0xFFu32) + 0xFFFF_FF00u32,
        (w & 0xFFFFu32) & 0x8000u32 == 0 ==> sign_extended(16, w & 0xFFFFu32) == w & 0xFFFFu32,
        (w & 0xFFFFu32) & 0x8000u32 != 0 ==> sign_extended(16, w & 0xFFFFu32) == (w & 0xFFFFu32) + 0xFFFF_0000u32,
        (byte_reverse(w) >> 24u32) & 0xFFu32 == w & 0xFFu32,
        (byte_reverse(w) >> 16u32) & 0xFFu32 == (w >> 8u32) & 0xFFu32,
        (byte_reverse(w) >> 8u32) & 0xFFu32 == (w >> 16u32) & 0xFFu32,
        byte_reverse(w) & 0xFFu32 == (w >> 24u32) & 0xFFu32,
{
}

/// UXTB and UXTH keep the low byte and half word of the source, that is the
/// source modulo 2^8 and 2^16; SXTB and SXTH keep them as two's complement
/// numbers, so the result read as a signed word is the byte or half word
/// read as a signed one; REV puts the bytes of the source in reverse order.
/// The flags and the other registers do not change.
pub proof fn lemma_extend_and_reverse(old: System, new: System, code: B16, d: u8, m: u8)
    requires
        d < 13,
        code == B16::UXTB || code == B16::UXTH || code == B16::SXTB || code == B16::SXTH || code == B16::REV,
        alu_post(old, new, code, Operands::RegisterPair(DestRegister(d), Register(m))),
    ensures
        ({
            let y = old.registers.generic[m as int];
            let z = new.registers.generic[d as int];
            &&& code == B16::UXTB ==> z as int == y as int % 0x100
            &&& code == B16::UXTH ==> z as int == y as int % 0x1_0000
            &&& code == B16::SXTB ==> super::instructions::signed_value(z) == (if y as int % 0x100 < 0x80 {
                y as int % 0x100
            } else {
                y as int % 0x100 - 0x100
            })
            &&& code == B16::SXTH ==> super::instructions::signed_value(z) == (if y as int % 0x1_0000 < 0x8000 {
                y as int % 0x1_0000
            } else {
                y as int % 0x1_0000 - 0x1_0000
            })
            &&& code == B16::REV ==> {
                &&& z & 0xFFu32 == (y >> 24u32) & 0xFFu32
                &&& (z >> 8u32) & 0xFFu32 == (y >> 16u32) & 0xFFu32
                &&& (z >> 16u32) & 0xFFu32 == (y >> 8u32) & 0xFFu32
                &&& (z >> 24u32) & 0xFFu32 == y & 0xFFu32
            }
        }),
        new.xpsr == old.xpsr,
        forall|k: int| 0 <= k < 13 && k != d ==> new.registers.generic[k] == old.registers.generic[k],
{
    let y = old.registers.generic[m as int];
    lemma_extend_bits(y);
    if code == B16::SXTB {
        assert((y & 0xFFu32) & 0x80u32 == 0 <==> y as int % 0x100 < 0x80) by (bit_vector);
    }
    if code == B16::SXTH {
        assert((y & 0xFFFFu32) & 0x8000u32 == 0 <==> y as int % 0x1_0000 < 0x8000) by (bit_vector);
    }
}

impl System {
    /// Writes `v` to low register `d` and sets the flags from `flags`.
    fn write_with_flags(&mut self, d: u8, v: u32, flags: &ConditionFlags)
        requires
            d < 13,
        ensures
            final(self).registers.generic@ == old(self).registers.generic@.update(d as int, v),
            *final(self) == (System {
                registers: Registers { generic: final(self).registers.generic, ..old(self).registers },
                xpsr: apsr_with_flags(old(self).xpsr, *flags),
                ..*old(self)
            }),
    {
        self.registers.generic[d as usize] = v;
        self.update_apsr(flags);
    }

    /// Runs an arithmetic data processing instruction.
    #[verifier::rlimit(60)]
    fn exec_arith(&mut self, code: B16, ops: Operands)
        requires
            alu_shape(code, ops),
            alu_ok(*old(self), code, ops),
            match code {
                B16::ADCS | B16::ADD_Imm3 | B16::ADD_Imm8 | B16::ADDS_REG | B16::CMP_NEG_REG
                | B16::CMP_Imm8 | B16::CMP_REG_T1 | B16::CMP_REG_T2 | B16::SUB_Imm3 | B16::SUB_Imm8
                | B16::SUB_REG | B16::SBC | B16::RSB | B16::MUL => true,
                _ => false,
            },
        ensures
            alu_post(*old(self), *final(self), code, ops),
    {
        let ghost old_sys = *self;
        match (code, ops) {
            (B16::ADCS, Operands::RegisterPair(dest, other)) => {
                let a = self.registers.generic[dest.0 as usize];
                let b = self.registers.generic[other.0 as usize];
                let (sum, flags) = adc_flags(a, b, carry_flag(self.xpsr));
                self.write_with_flags(dest.0, sum, &flags);
            },
            (B16::ADD_Imm3, Operands::RegPairImm3(dest, src, imm3)) => {
                let (sum, flags) = add_immediate(self.registers.generic[src.0 as usize], imm3.0);
                self.write_with_flags(dest.0, sum, &flags);
            },
            (B16::ADD_Imm8, Operands::DestImm8(dest, imm8)) => {
                let (sum, flags) = add_immediate(self.registers.generic[dest.0 as usize], imm8.0);
                self.write_with_flags(dest.0, sum, &flags);
            },
            (B16::ADDS_REG, Operands::RegisterTriplet(dest, src, arg)) => {
                let (sum, flags) = add_immediate(
                    self.registers.generic[src.0 as usize],
                    self.registers.generic[arg.0 as usize],
                );
                self.write_with_flags(dest.0, sum, &flags);
            },
            (B16::CMP_NEG_REG, Operands::PureRegisterPair(reg_a, reg_b)) => {
                let a = self.registers.generic[reg_a.0 as usize];
                let b = self.registers.generic[reg_b.0 as usize];
                let (_, flags) = adc_flags(a, b, false);
                self.update_apsr(&flags);
            },
            (B16::CMP_Imm8, Operands::CMP_Imm8(src, imm8)) => {
                let flags = compare(self.registers.generic[src.0 as usize], imm8.0);
                self.update_apsr(&flags);
            },
            (B16::CMP_REG_T1, Operands::PureRegisterPair(first, secnd)) => {
                let flags = compare(
                    self.registers.generic[first.0 as usize],
                    self.registers.generic[secnd.0 as usize],
                );
                self.update_apsr(&flags);
            },
            (B16::CMP_REG_T2, Operands::PureRegisterPair(first, secnd)) => {
                let flags = compare(
                    self.registers.generic[first.0 as usize],
                    self.registers.generic[secnd.0 as usize],
                );
                self.update_apsr(&flags);
            },
            (B16::SUB_Imm3, Operands::RegPairImm3(dest, src, imm3)) => {
                let (sum, flags) = subtract(self.registers.generic[src.0 as usize], imm3.0);
                self.write_with_flags(dest.0, sum, &flags);
            },
            (B16::SUB_Imm8, Operands::DestImm8(dest, imm8)) => {
                let (sum, flags) = subtract(self.registers.generic[dest.0 as usize], imm8.0);
                self.write_with_flags(dest.0, sum, &flags);
            },
            (B16::SUB_REG, Operands::RegisterTriplet(dest, src, arg)) => {
                let (sum, flags) = subtract(
                    self.registers.generic[src.0 as usize],
                    self.registers.generic[arg.0 as usize],
                );
                self.write_with_flags(dest.0, sum, &flags);
            },
            (B16::SBC, Operands::RegisterPair(dest, arg)) => {
                let a = self.registers.generic[dest.0 as usize];
                let b = self.registers.generic[arg.0 as usize];
                let (sum, flags) = adc_flags(a, !b, carry_flag(self.xpsr));
                self.write_with_flags(dest.0, sum, &flags);
            },
            (B16::RSB, Operands::RegisterPair(dest, src)) => {
                let v = self.registers.generic[src.0 as usize];
                let (sum, flags) = adc_flags(!v, 0, true);
                self.write_with_flags(dest.0, sum, &flags);
            },
            (B16::MUL, Operands::RegisterPair(dest, arg)) => {
                let (product, negative, zero) = multiply(
                    self.registers.generic[dest.0 as usize],
                    self.registers.generic[arg.0 as usize],
                );
                self.registers.generic[dest.0 as usize] = product;
                let mut xpsr = crate::binutils::from_arm_bytes(self.xpsr);
                xpsr = if negative { xpsr | 0x8000_0000 } else { xpsr & !0x8000_0000 };
                xpsr = if zero { xpsr | 0x4000_0000 } else { xpsr & !0x4000_0000 };
                self.xpsr = crate::binutils::u32_to_arm_bytes(xpsr);
            },
            _ => {
                proof {
                    assert(false);
                }
            },
        }
    }
}

impl System {
    /// Runs a logical, shift, extend or address data processing instruction.
    #[verifier::rlimit(80)]
    fn exec_logic(&mut self, code: B16, ops: Operands)
        requires
            alu_shape(code, ops),
            alu_ok(*old(self), code, ops),
            match code {
                B16::ANDS | B16::ASRS_Imm5 | B16::ASRS_REG | B16::BIT_CLEAR_REGISTER | B16::XOR_REG
                | B16::SXTB | B16::SXTH | B16::ORR | B16::LSL_Imm5 | B16::LSL_REGS | B16::LSR_Imm5
                | B16::LSR_REGS | B16::TST | B16::UXTB | B16::UXTH | B16::REV | B16::REV_16 | B16::REVSH
                | B16::ROR | B16::ADD_REG_SP_IMM8 | B16::ADR => true,
                _ => false,
            },
        ensures
            alu_post(*old(self), *final(self), code, ops),
    {
        match (code, ops) {
            (B16::ANDS, Operands::RegisterPair(dest, other)) => {
                let a = self.registers.generic[dest.0 as usize];
                let b = self.registers.generic[other.0 as usize];
                let r = a & b;
                let flags = ConditionFlags {
                    negative: (r & 0x8000_0000) != 0,
                    overflow: overflow_flag(self.xpsr),
                    carry: carry_flag(self.xpsr),
                    zero: r == 0,
                };
                self.write_with_flags(dest.0, r, &flags);
            },
            (B16::ASRS_Imm5, Operands::ASRS_Imm5(dest, src, imm5)) => {
                let v = self.registers.generic[src.0 as usize];
                let shift = if imm5.0 == 0 { 32 } else { imm5.0 };
                let (result, flags) = asr(v, shift, overflow_flag(self.xpsr));
                self.write_with_flags(dest.0, result, &flags);
            },
            (B16::ASRS_REG, Operands::RegisterPair(dest, shift)) => {
                let v = self.registers.generic[dest.0 as usize];
                let ammount = self.registers.generic[shift.0 as usize] & 0xFF;
                let shift = if ammount % 32 == 0 { 32 } else { ammount % 32 };
                let (result, flags) = asr(v, shift, overflow_flag(self.xpsr));
                self.write_with_flags(dest.0, result, &flags);
            },
            (B16::BIT_CLEAR_REGISTER, Operands::RegisterPair(dest, arg)) => {
                let src = self.registers.generic[arg.0 as usize];
                let r = self.registers.generic[dest.0 as usize] & !src;
                let flags = ConditionFlags {
                    negative: (r & 0x8000_0000) != 0,
                    zero: r == 0,
                    carry: carry_flag(self.xpsr),
                    overflow: overflow_flag(self.xpsr),
                };
                self.write_with_flags(dest.0, r, &flags);
            },
            (B16::XOR_REG, Operands::RegisterPair(dest, arg)) => {
                let overflow = overflow_flag(self.xpsr);
                let (res, flags) = xor(
                    self.registers.generic[dest.0 as usize],
                    self.registers.generic[arg.0 as usize],
                    overflow,
                );
                self.write_with_flags(dest.0, res, &flags);
            },
            (B16::SXTB, Operands::RegisterPair(dest, src)) => {
                let masked = self.registers.generic[src.0 as usize] & 0xFF;
                self.registers.generic[dest.0 as usize] = sign_extend_u32::<8>(masked);
            },
            (B16::SXTH, Operands::RegisterPair(dest, src)) => {
                let masked = self.registers.generic[src.0 as usize] & 0xFFFF;
                self.registers.generic[dest.0 as usize] = sign_extend_u32::<16>(masked);
            },
            (B16::ORR, Operands::RegisterPair(dest, arg)) => {
                let v = self.registers.generic[dest.0 as usize] | self.registers.generic[arg.0 as usize];
                let flags = ConditionFlags {
                    negative: (0x8000_0000 & v) != 0,
                    carry: carry_flag(self.xpsr),
                    zero: v == 0,
                    overflow: overflow_flag(self.xpsr),
                };
                proof {
                    crate::binutils::lemma_word_facts(v, 0);
                }
                self.write_with_flags(dest.0, v, &flags);
            },
            (B16::LSL_Imm5, Operands::LS_Imm5(dest, src, ammount)) => {
                let overflow = overflow_flag(self.xpsr);
                let arg = self.registers.generic[src.0 as usize];
                let (res, flags) = shift_left(arg, ammount.0, overflow);
                self.write_with_flags(dest.0, res, &flags);
            },
            (B16::LSL_REGS, Operands::RegisterPair(dest, arg)) => {
                let overflow = overflow_flag(self.xpsr);
                let val = self.registers.generic[dest.0 as usize];
                let shift = self.registers.generic[arg.0 as usize] & 0xFF;
                let (res, flags) = shift_left(val, shift, overflow);
                self.write_with_flags(dest.0, res, &flags);
            },
            (B16::LSR_Imm5, Operands::LS_Imm5(dest, src, ammount)) => {
                let overflow = overflow_flag(self.xpsr);
                let arg = self.registers.generic[src.0 as usize];
                let ammount = if ammount.0 == 0 { 32 } else { ammount.0 };
                let (res, flags) = shift_right(arg, ammount, overflow);
                self.write_with_flags(dest.0, res, &flags);
            },
            (B16::LSR_REGS, Operands::RegisterPair(dest, arg)) => {
                let overflow = overflow_flag(self.xpsr);
                let val = self.registers.generic[dest.0 as usize];
                let shift = self.registers.generic[arg.0 as usize] & 0xFF;
                let ammount = if shift == 0 { 32 } else { shift };
                let (res, flags) = shift_right(val, ammount, overflow);
                self.write_with_flags(dest.0, res, &flags);
            },
            (B16::TST, Operands::PureRegisterPair(a, b)) => {
                let va = self.registers.generic[a.0 as usize];
                let vb = self.registers.generic[b.0 as usize];
                let r = va & vb;
                let flags = ConditionFlags {
                    negative: (r & 0x8000_0000) != 0,
                    overflow: overflow_flag(self.xpsr),
                    carry: carry_flag(self.xpsr),
                    zero: r == 0,
                };
                self.update_apsr(&flags);
            },
            (B16::UXTB, Operands::RegisterPair(dest, src)) => {
                let v = self.registers.generic[src.0 as usize] & 0xFF;
                self.registers.generic[dest.0 as usize] = v;
            },
            (B16::UXTH, Operands::RegisterPair(dest, src)) => {
                let v = self.registers.generic[src.0 as usize] & 0xFFFF;
                self.registers.generic[dest.0 as usize] = v;
            },
            (B16::REV, Operands::RegisterPair(dest, src)) => {
                let v = self.registers.generic[src.0 as usize];
                let mut new: u32 = (v & 0xFF) << 24;
                new = new | ((v & 0xFF00) << 8);
                new = new | ((v & 0xFF_0000) >> 8);
                new = new | ((v & 0xFF00_0000) >> 24);
                self.registers.generic[dest.0 as usize] = new;
            },
            (B16::REV_16, Operands::RegisterPair(dest, src)) => {
                let v = self.registers.generic[src.0 as usize];
                let mut new: u32 = (v & 0xFF_0000) << 8;
                new = new | ((v & 0xFF00_0000) >> 8);
                new = new | ((v & 0xFF) << 8);
                new = new | ((v & 0xFF00) >> 8);
                self.registers.generic[dest.0 as usize] = new;
            },
            (B16::REVSH, Operands::RegisterPair(dest, src)) => {
                let v = self.registers.generic[src.0 as usize];
                let mut new: u32 = sign_extend_u32::<8>(v & 0xFF);
                new = new & 0xFFFF_FF00;
                new = new | ((v & 0xFF00) >> 8);
                self.registers.generic[dest.0 as usize] = new;
            },
            (B16::ROR, Operands::RegisterPair(dest, src)) => {
                let rotate = self.registers.generic[src.0 as usize] & 0xFF;
                let arg = self.registers.generic[dest.0 as usize];
                let (rotated, flags) = ror(arg, rotate, overflow_flag(self.xpsr));
                self.write_with_flags(dest.0, rotated, &flags);
            },
            (B16::ADD_REG_SP_IMM8, Operands::ADD_REG_SP_IMM8(dest, imm)) => {
                let (sum, _) = add_immediate(self.get_sp(), imm.0);
                self.registers.generic[dest.0 as usize] = sum;
            },
            (B16::ADR, Operands::ADR(dest, imm8)) => {
                let base = self.read_pc_word_aligned();
                let offset: u32 = imm8.0 << 2;
                let v = base + offset;
                self.registers.generic[dest.0 as usize] = v;
            },
            _ => {
                proof {
                    assert(false);
                }
            },
        }
    }

    /// Runs a data processing instruction.
    fn exec_alu(&mut self, code: B16, ops: Operands)
        requires
            is_alu(code),
            alu_shape(code, ops),
            alu_ok(*old(self), code, ops),
        ensures
            alu_post(*old(self), *final(self), code, ops),
    {
        match code {
            B16::ADCS | B16::ADD_Imm3 | B16::ADD_Imm8 | B16::ADDS_REG | B16::CMP_NEG_REG | B16::CMP_Imm8
            | B16::CMP_REG_T1 | B16::CMP_REG_T2 | B16::SUB_Imm3 | B16::SUB_Imm8 | B16::SUB_REG
            | B16::SBC | B16::RSB | B16::MUL => self.exec_arith(code, ops),
            _ => self.exec_logic(code, ops),
        }
    }
}

/// `new` has the registers of `old` with register `dest` (0 to 14) set to
/// `v`; the stack pointer through the current selection.
pub open spec fn regs_moved(old: System, new: System, dest: u8, v: u32) -> bool {
    if dest <= 12 {
        &&& new.registers.generic@ == old.registers.generic@.update(dest as int, v)
        &&& new.registers == Registers { generic: new.registers.generic, ..old.registers }
    } else if dest == 13 {
        new.registers == super::with_sp(old, v).registers
    } else {
        new.registers == Registers { lr: v, ..old.registers }
    }
}

/// `new` is `old` after moving `v` into register `dest` with N and Z set
/// from it, as `do_move` does; a HardFault for an unaligned stack pointer.
pub open spec fn move_post(old: System, new: System, dest: u8, v: u32, r: Result<(), ArmException>) -> bool {
    if dest == 13 && v & 3u32 != 0 {
        &&& r matches Err(e) && e is HardFault
        &&& new == old
    } else {
        &&& r is Ok
        &&& regs_moved(old, new, dest, v)
        &&& new == System {
            registers: new.registers,
            xpsr: le_bytes_u32(nz_word(le_u32(old.xpsr), v)),
            ..old
        }
    }
}

impl System {
    /// Moves `value` into register `dest` (0 to 14) and sets N and Z from it.
    pub(crate) fn do_move(&mut self, dest: usize, value: u32) -> (r: Result<(), ArmException>)
        requires
            dest <= 14,
            dest == 13 ==> old(self).sp_usable(),
        ensures
            move_post(*old(self), *final(self), dest as u8, value, r),
    {
        let d = dest as u8;
        if d <= 12 {
            self.registers.generic[dest] = value;
        } else if d == 13 {
            self.set_sp(value)?;
        } else {
            self.registers.lr = value;
        }
        let mut new_xpsr = crate::binutils::from_arm_bytes(self.xpsr);
        new_xpsr = if value & 0x8000_0000 != 0 {
            crate::binutils::set_bit(31, new_xpsr)
        } else {
            crate::binutils::clear_bit(31, new_xpsr)
        };
        new_xpsr = if value == 0 {
            crate::binutils::set_bit(30, new_xpsr)
        } else {
            crate::binutils::clear_bit(30, new_xpsr)
        };
        proof {
            let w = le_u32(old(self).xpsr);
            crate::binutils::lemma_word_facts(w, 0);
            let w1 = if value & 0x8000_0000u32 != 0 { w | 0x8000_0000u32 } else { w & !0x8000_0000u32 };
            crate::binutils::lemma_word_facts(w1, 0);
        }
        self.xpsr = crate::binutils::u32_to_arm_bytes(new_xpsr);
        Ok(())
    }
}

/// Whether `code` moves a value into a register or the stack pointer.
pub open spec fn is_move(code: B16) -> bool {
    match code {
        B16::ADDS_REG_T2 | B16::MOV_Imm8 | B16::MOV_REGS_T1 | B16::MOV_REGS_T2 | B16::MVN
        | B16::INCR_SP_BY_IMM7 | B16::INCR_SP_BY_REG | B16::SUB_SP_Imm7 => true,
        _ => false,
    }
}

/// The operands of a move have the shape its decoder gives.
pub open spec fn move_shape(code: B16, ops: Operands) -> bool {
    match (code, ops) {
        (B16::ADDS_REG_T2, Operands::RegisterPair(d, m)) => d.0 < 16 && m.0 < 16,
        (B16::MOV_Imm8, Operands::DestImm8(d, imm)) => d.0 < 8,
        (B16::MOV_REGS_T1, Operands::MOV_REG(d, m)) => d.0 < 16 && m.0 < 16,
        (B16::MOV_REGS_T2, Operands::MOV_REG(d, m)) | (B16::MVN, Operands::MOV_REG(d, m)) => d.0 < 8 && m.0 < 8,
        (B16::INCR_SP_BY_IMM7, Operands::INCR_SP_BY_IMM7(imm)) => true,
        (B16::INCR_SP_BY_REG, Operands::INCR_SP_BY_REG(m)) => m.0 < 16,
        (B16::SUB_SP_Imm7, Operands::SP_SUB(imm)) => true,
        _ => false,
    }
}

/// What a value moved to the program counter branches by.
pub open spec fn pc_write_offset(s: System, v: u32) -> int {
    ((v & 0xFFFF_FFFEu32) as i32) - ((s.registers.pc & 0xFFFF_FFFEusize) as i32)
}

/// Whether reading register `r` is defined: the stack pointer must be
/// usable and the program counter must leave room for its offset.
pub open spec fn readable(s: System, r: u8) -> bool {
    &&& r <= 15
    &&& r == 13 ==> s.sp_usable()
    &&& r == 15 ==> s.registers.pc + 4 <= usize::MAX
}

/// The value that the move instruction `code` moves.
pub open spec fn move_value(s: System, code: B16, ops: Operands) -> u32 {
    match (code, ops) {
        (B16::ADDS_REG_T2, Operands::RegisterPair(d, m)) => spec_add_with_carry(32, s.reg_value(d.0), s.reg_value(m.0), 0).0,
        (B16::MOV_Imm8, Operands::DestImm8(d, imm)) => imm.0,
        (B16::MOV_REGS_T1, Operands::MOV_REG(d, m)) => s.reg_value(m.0),
        (B16::MOV_REGS_T2, Operands::MOV_REG(d, m)) => gr(s, m.0),
        (B16::MVN, Operands::MOV_REG(d, m)) => !gr(s, m.0),
        (B16::INCR_SP_BY_IMM7, Operands::INCR_SP_BY_IMM7(imm)) => spec_add_with_carry(32, s.current_sp(), imm.0, 0).0,
        (B16::INCR_SP_BY_REG, Operands::INCR_SP_BY_REG(m)) => spec_add_with_carry(32, s.current_sp(), s.reg_value(m.0), 0).0,
        (B16::SUB_SP_Imm7, Operands::SP_SUB(imm)) => spec_add_with_carry(32, s.current_sp(), !imm.0, 1).0,
        _ => 0,
    }
}

/// The register that the move instruction `code` writes; 15 for the
/// program counter, which branches.
pub open spec fn move_dest(code: B16, ops: Operands) -> u8 {
    match (code, ops) {
        (B16::ADDS_REG_T2, Operands::RegisterPair(d, m)) => d.0,
        (B16::MOV_Imm8, Operands::DestImm8(d, imm)) => d.0,
        (_, Operands::MOV_REG(d, m)) => d.0,
        _ => 13,
    }
}

/// Whether a move runs without a simulator error.
pub open spec fn move_ok(s: System, code: B16, ops: Operands) -> bool {
    let v = move_value(s, code, ops);
    match (code, ops) {
        (B16::ADDS_REG_T2, Operands::RegisterPair(d, m)) => {
            &&& readable(s, d.0)
            &&& readable(s, m.0)
            &&& d.0 == 15 ==> i32::MIN <= pc_write_offset(s, v) <= i32::MAX
        },
        (B16::MOV_REGS_T1, Operands::MOV_REG(d, m)) => {
            &&& readable(s, m.0)
            &&& d.0 == 13 ==> s.sp_usable()
            &&& d.0 == 15 ==> i32::MIN <= pc_write_offset(s, v) <= i32::MAX
        },
        (B16::INCR_SP_BY_IMM7, _) | (B16::SUB_SP_Imm7, _) => s.sp_usable(),
        (B16::INCR_SP_BY_REG, Operands::INCR_SP_BY_REG(m)) => s.sp_usable() && readable(s, m.0),
        _ => true,
    }
}

/// `new` is `old` after the move `code`, with result `r`.
pub open spec fn move_group_post(old: System, new: System, code: B16, ops: Operands, r: Result<i32, ArmException>) -> bool {
    let v = move_value(old, code, ops);
    let d = move_dest(code, ops);
    if (code == B16::ADDS_REG_T2 || code == B16::MOV_REGS_T1) && d == 15 {
        r == Ok::<i32, ArmException>(pc_write_offset(old, v) as i32) && new == old
    } else if code == B16::INCR_SP_BY_IMM7 || code == B16::INCR_SP_BY_REG || code == B16::SUB_SP_Imm7 {
        &&& r is Ok <==> v & 3u32 == 0
        &&& r matches Ok(o) ==> o == 2
        &&& r matches Err(e) ==> e is HardFault
        &&& new == if r is Ok { super::with_sp(old, v) } else { old }
    } else {
        exists|mr: Result<(), ArmException>| #[trigger] move_post(old, new, d, v, mr) && match mr {
            Ok(_) => r == Ok::<i32, ArmException>(2),
            Err(e) => r == Err::<i32, ArmException>(e),
        }
    }
}

impl System {
    /// Runs a move to a register or the stack pointer.
    #[verifier::rlimit(40)]
    fn exec_move(&mut self, code: B16, ops: Operands) -> (r: Result<i32, ArmException>)
        requires
            is_move(code),
            move_shape(code, ops),
            move_ok(*old(self), code, ops),
        ensures
            move_group_post(*old(self), *final(self), code, ops, r),
    {
        let ghost old_sys = *self;
        match (code, ops) {
            (B16::ADDS_REG_T2, Operands::RegisterPair(dest, src)) => {
                let d = self.read_any_register(dest.0);
                let s = self.read_any_register(src.0);
                let (sum, _) = add_immediate(d, s);
                if dest.0 == crate::thumb::PROGRAM_COUNTER {
                    Ok(self.alu_pc_offset(sum))
                } else {
                    let mr = self.do_move(dest.0 as usize, sum);
                    proof {
                        assert(move_post(old_sys, *self, dest.0, sum, mr));
                    }
                    match mr {
                        Ok(_) => Ok(2),
                        Err(e) => Err(e),
                    }
                }
            },
            (B16::MOV_Imm8, Operands::DestImm8(dest, imm8)) => {
                let mr = self.do_move(dest.0 as usize, imm8.0);
                proof {
                    assert(move_post(old_sys, *self, dest.0, imm8.0, mr));
                }
                match mr {
                    Ok(_) => Ok(2),
                    Err(e) => Err(e),
                }
            },
            (B16::MOV_REGS_T1, Operands::MOV_REG(dest, src)) => {
                let v = self.read_any_register(src.0);
                if dest.0 == crate::thumb::PROGRAM_COUNTER {
                    Ok(self.alu_pc_offset(v))
                } else {
                    let mr = self.do_move(dest.0 as usize, v);
                    proof {
                        assert(move_post(old_sys, *self, dest.0, v, mr));
                    }
                    match mr {
                        Ok(_) => Ok(2),
                        Err(e) => Err(e),
                    }
                }
            },
            (B16::MOV_REGS_T2, Operands::MOV_REG(dest, src)) => {
                let v = self.registers.generic[src.0 as usize];
                let mr = self.do_move(dest.0 as usize, v);
                proof {
                    assert(move_post(old_sys, *self, dest.0, v, mr));
                }
                match mr {
                    Ok(_) => Ok(2),
                    Err(e) => Err(e),
                }
            },
            (B16::MVN, Operands::MOV_REG(dest, src)) => {
                let v = !self.registers.generic[src.0 as usize];
                let mr = self.do_move(dest.0 as usize, v);
                proof {
                    assert(move_post(old_sys, *self, dest.0, v, mr));
                }
                match mr {
                    Ok(_) => Ok(2),
                    Err(e) => Err(e),
                }
            },
            (B16::INCR_SP_BY_IMM7, Operands::INCR_SP_BY_IMM7(imm)) => {
                let (sum, _) = add_immediate(self.get_sp(), imm.0);
                self.set_sp(sum)?;
                Ok(2)
            },
            (B16::INCR_SP_BY_REG, Operands::INCR_SP_BY_REG(src)) => {
                let (sum, _) = add_immediate(self.get_sp(), self.read_any_register(src.0));
                self.set_sp(sum)?;
                Ok(2)
            },
            (B16::SUB_SP_Imm7, Operands::SP_SUB(imm7)) => {
                let (sum, _) = subtract(self.get_sp(), imm7.0);
                self.set_sp(sum)?;
                Ok(2)
            },
            _ => {
                proof {
                    assert(false);
                }
                Ok(2)
            },
        }
    }
}

/// Whether `code` is a branch.
pub open spec fn is_branch(code: B16) -> bool {
    is_branch_condition(Opcode::_16Bit(code)) || code == B16::BR_EXCHANGE || code == B16::BR_LNK_EXCHANGE
}

/// The operands of a branch have the shape its decoder gives.
pub open spec fn branch_shape(code: B16, ops: Operands) -> bool {
    match (code, ops) {
        (B16::B_ALWAYS, Operands::B_ALWAYS(off)) => true,
        (B16::BR_EXCHANGE, Operands::BR_EXCHANGE(m)) => m.0 < 16,
        (B16::BR_LNK_EXCHANGE, Operands::BR_LNK_EXCHANGE(m)) => m.0 < 16,
        (_, Operands::COND_BRANCH(off)) => code != B16::B_ALWAYS && is_branch_condition(Opcode::_16Bit(code)),
        _ => false,
    }
}

/// The link value of a `BLX`: the next instruction, with the Thumb bit.
pub open spec fn blx_link(s: System) -> u32 {
    (((s.registers.pc as u32) + 2) as u32) | 1u32
}

/// The target of a `BLX` through register `m`, read after LR is set.
pub open spec fn blx_target(s: System, m: u8) -> u32 {
    if m == 14 {
        blx_link(s)
    } else {
        s.reg_value(m)
    }
}

/// Whether a branch runs without a simulator error.
pub open spec fn branch_ok(s: System, code: B16, ops: Operands) -> bool {
    match (code, ops) {
        (B16::BR_EXCHANGE, Operands::BR_EXCHANGE(m)) => readable(s, m.0) && bx_defined(s, s.reg_value(m.0)),
        (B16::BR_LNK_EXCHANGE, Operands::BR_LNK_EXCHANGE(m)) => {
            let t = blx_target(s, m.0);
            &&& (s.registers.pc as u32) + 2 <= u32::MAX
            &&& readable(s, m.0)
            &&& t & 1u32 != 0 ==> i32::MIN <= ((t & 0xFFFF_FFFEu32) as i32) - (s.registers.pc as i32) <= i32::MAX
        },
        _ => true,
    }
}

/// `new` is `old` after the branch `code`, with result `r`: the offset to
/// move the program counter by.
pub open spec fn branch_post(old: System, new: System, code: B16, ops: Operands, r: Result<i32, ArmException>) -> bool {
    match (code, ops) {
        (B16::B_ALWAYS, Operands::B_ALWAYS(off)) => r == Ok::<i32, ArmException>(off) && new == old,
        (B16::BR_EXCHANGE, Operands::BR_EXCHANGE(m)) => bx_post(old, new, old.reg_value(m.0), r),
        (B16::BR_LNK_EXCHANGE, Operands::BR_LNK_EXCHANGE(m)) => {
            let t = blx_target(old, m.0);
            &&& new == System {
                registers: Registers { lr: blx_link(old), ..old.registers },
                xpsr: le_bytes_u32(
                    if t & 1u32 != 0 {
                        le_u32(old.xpsr) | 0x0100_0000u32
                    } else {
                        le_u32(old.xpsr) & !0x0100_0000u32
                    },
                ),
                ..old
            }
            &&& r is Ok <==> t & 1u32 != 0
            &&& r matches Ok(off) ==> off == ((t & 0xFFFF_FFFEu32) as i32) - (old.registers.pc as i32)
            &&& r matches Err(e) ==> e is HardFault
        },
        (_, Operands::COND_BRANCH(off)) => new == old && r == Ok::<i32, ArmException>(
            if spec_cond_passed(old.xpsr, Opcode::_16Bit(code)) {
                off
            } else {
                2
            },
        ),
        _ => true,
    }
}

impl System {
    /// Runs a branch; gives the offset to move the program counter by.
    fn exec_branch(&mut self, code: B16, ops: Operands) -> (r: Result<i32, ArmException>)
        requires
            is_branch(code),
            branch_shape(code, ops),
            branch_ok(*old(self), code, ops),
        ensures
            branch_post(*old(self), *final(self), code, ops, r),
    {
        match (code, ops) {
            (B16::B_ALWAYS, Operands::B_ALWAYS(offset)) => Ok(offset),
            (B16::BR_EXCHANGE, Operands::BR_EXCHANGE(register)) => {
                let addr = self.read_any_register(register.0);
                self.bx_interworking_pc_offset(addr)
            },
            (B16::BR_LNK_EXCHANGE, Operands::BR_LNK_EXCHANGE(register)) => {
                let interwork_addr = (self.registers.pc as u32) + 2;
                self.registers.lr = interwork_addr | 0x1;
                let branch_target = self.read_any_register(register.0);
                self.blx_interworking_offset(branch_target)
            },
            (_, Operands::COND_BRANCH(offset)) => {
                let code16 = Opcode::_16Bit(code);
                if cond_passed(self.xpsr, &code16) {
                    Ok(offset)
                } else {
                    Ok(2)
                }
            },
            _ => {
                proof {
                    assert(false);
                }
                Ok(2)
            },
        }
    }
}

/// Whether `code` is one of the system and hint instructions.
pub open spec fn is_misc(code: B16) -> bool {
    match code {
        B16::BREAKPOINT | B16::CPS | B16::SEV | B16::NOP | B16::YIELD | B16::WFE | B16::WFI
        | B16::UNDEFINED | B16::SVC => true,
        _ => false,
    }
}

/// Whether a system or hint instruction runs without a simulator error.
pub open spec fn misc_ok(s: System, code: B16, ops: Option<Operands>) -> bool {
    &&& code == B16::CPS ==> (ops matches Some(Operands::EnableInterupt(_)))
    &&& code == B16::SVC ==> actives_valid(s.active_exceptions@)
}

/// The priority group of a supervisor call under `s`.
pub open spec fn svc_priority(s: System) -> i32 {
    ((s.scs.shpr2 & 0xC000_0000u32) >> 30u32) as i32
}

/// `new` is `old` after the system or hint instruction `code`, with result
/// `r`.
pub open spec fn misc_post(old: System, new: System, code: B16, ops: Option<Operands>, r: Result<i32, ArmException>) -> bool {
    match code {
        B16::BREAKPOINT => {
            let a = (old.registers.pc as u32) as usize;
            &&& r == Ok::<i32, ArmException>(0)
            &&& new.breakpoints@ == if old.breakpoints@.contains(a) {
                old.breakpoints@
            } else {
                old.breakpoints@.push(a)
            }
            &&& new == System { breakpoints: new.breakpoints, ..old }
        },
        B16::CPS => r == Ok::<i32, ArmException>(2) && match ops {
            Some(Operands::EnableInterupt(flag)) => new == System { primask: flag, ..old },
            _ => true,
        },
        B16::SEV => {
            &&& r == Ok::<i32, ArmException>(2)
            &&& new.trace@ == if old.trace_enabled {
                old.trace@ + "==SEV set event register==\n"@
            } else {
                old.trace@
            }
            &&& new == System { event_register: true, trace: new.trace, ..old }
        },
        B16::WFE => if old.event_register {
            r == Ok::<i32, ArmException>(2) && new == System { event_register: false, ..old }
        } else {
            r == Ok::<i32, ArmException>(0) && new == old
        },
        B16::WFI => if old.scs.wfi_wake_up {
            r == Ok::<i32, ArmException>(2) && new == System {
                scs: super::SystemControlSpace { wfi_wake_up: false, ..old.scs },
                ..old
            }
        } else {
            r == Ok::<i32, ArmException>(0) && new == old
        },
        B16::UNDEFINED => (r matches Err(e) && e is HardFault) && new == old,
        B16::SVC => {
            let p = spec_execution_priority(old.active_exceptions@, old.primask, old.scs);
            if p == -1 || p == -2 {
                r == Ok::<i32, ArmException>(0) && new == System {
                    registers: Registers { pc: 0xFFFF_FFFEusize, ..old.registers },
                    locked_up: true,
                    ..old
                }
            } else if p < svc_priority(old) {
                (r matches Err(e) && e is HardFault) && new == old
            } else {
                (r matches Err(e) && e is Svc) && new == old
            }
        },
        _ => r == Ok::<i32, ArmException>(2) && new == old,
    }
}

impl System {
    /// Runs a system or hint instruction.
    fn exec_misc(&mut self, code: B16, ops: Option<Operands>) -> (r: Result<i32, ArmException>)
        requires
            is_misc(code),
            misc_ok(*old(self), code, ops),
        ensures
            misc_post(*old(self), *final(self), code, ops, r),
    {
        match code {
            B16::BREAKPOINT => {
                let a = self.read_raw_ir();
                self.add_breakpoint(a);
                Ok(0)
            },
            B16::CPS => {
                match ops {
                    Some(Operands::EnableInterupt(interrupt_flag)) => {
                        self.primask = interrupt_flag;
                    },
                    _ => {},
                }
                Ok(2)
            },
            B16::SEV => {
                self.event_register = true;
                if self.trace_enabled {
                    vstd::string::StringExecFns::append(&mut self.trace, "==SEV set event register==\n");
                }
                Ok(2)
            },
            B16::WFE => {
                if self.event_register {
                    self.event_register = false;
                    Ok(2)
                } else {
                    Ok(0)
                }
            },
            B16::WFI => {
                if self.scs.wfi_wake_up {
                    self.scs.wfi_wake_up = false;
                    Ok(2)
                } else {
                    Ok(0)
                }
            },
            B16::UNDEFINED => Err(super::hard_fault("execution of a UDF instruction is undefined")),
            B16::SVC => {
                let priority = self.execution_priority(self.primask, &self.scs);
                if priority == -1 || priority == -2 {
                    self.lockup();
                    Ok(0)
                } else {
                    if priority < ArmException::Svc.priority_group(&self.scs) {
                        Err(super::hard_fault("SVC priority escalation fault"))
                    } else {
                        Err(ArmException::Svc)
                    }
                }
            },
            _ => Ok(2),
        }
    }
}

/// Whether `code` loads a register from memory.
pub open spec fn is_load(code: B16) -> bool {
    match code {
        B16::LDR_REGS | B16::LDR_Imm5 | B16::LDRH_Imm5 | B16::LDR_SP_Imm8 | B16::LDRB_Imm5
        | B16::LDRB_REGS | B16::LDRSB_REGS | B16::LDRSH_REGS | B16::LDR_PC_Imm8 | B16::LDRH_REGS => true,
        _ => false,
    }
}

/// The operands of a load have the shape its decoder gives.
pub open spec fn load_shape(code: B16, ops: Operands) -> bool {
    match (code, ops) {
        (B16::LDR_REGS, Operands::LDR_REG(d, n, m)) | (B16::LDRB_REGS, Operands::LDR_REG(d, n, m))
        | (B16::LDRH_REGS, Operands::LDR_REG(d, n, m)) | (B16::LDRSB_REGS, Operands::LDR_REG(d, n, m))
        | (B16::LDRSH_REGS, Operands::LDR_REG(d, n, m)) => d.0 < 8 && n.0 < 8 && m.0 < 8,
        (B16::LDR_Imm5, Operands::LDR_Imm5(d, n, imm)) | (B16::LDRB_Imm5, Operands::LDR_Imm5(d, n, imm))
        | (B16::LDRH_Imm5, Operands::LDR_Imm5(d, n, imm)) => d.0 < 8 && n.0 < 8,
        (B16::LDR_SP_Imm8, Operands::LDR_Imm8(d, n, imm)) => d.0 < 8 && imm.0 <= 1020,
        (B16::LDR_PC_Imm8, Operands::LDR_Imm8(d, n, imm)) => d.0 < 8 && imm.0 <= 1020,
        _ => false,
    }
}

/// The number of bytes a load reads.
pub open spec fn load_size(code: B16) -> nat {
    match code {
        B16::LDR_REGS | B16::LDR_Imm5 | B16::LDR_SP_Imm8 | B16::LDR_PC_Imm8 => 4,
        B16::LDRH_Imm5 | B16::LDRH_REGS | B16::LDRSH_REGS => 2,
        _ => 1,
    }
}

/// The word aligned program counter as instructions read it.
pub open spec fn pc_word(s: System) -> u32 {
    ((s.registers.pc + 4) as u32) & 0xFFFF_FFFCu32
}

/// The address a load reads, before it is checked to fit in 32 bits.
pub open spec fn load_addr(s: System, ops: Operands, code: B16) -> int {
    match ops {
        Operands::LDR_REG(d, n, m) => gr(s, n.0) + gr(s, m.0),
        Operands::LDR_Imm5(d, n, imm) => gr(s, n.0) + imm.0,
        Operands::LDR_Imm8(d, n, imm) => if code == B16::LDR_PC_Imm8 {
            pc_word(s) + imm.0
        } else {
            s.current_sp() + imm.0
        },
        _ => 0,
    }
}

/// The register a load writes.
pub open spec fn load_dest(ops: Operands) -> u8 {
    match ops {
        Operands::LDR_REG(d, n, m) => d.0,
        Operands::LDR_Imm5(d, n, imm) => d.0,
        Operands::LDR_Imm8(d, n, imm) => d.0,
        _ => 0,
    }
}

/// The value a load of `code` gives for the bytes `b` it read.
pub open spec fn load_value(code: B16, b: Seq<u8>) -> u32 {
    match code {
        B16::LDR_REGS | B16::LDR_Imm5 | B16::LDR_SP_Imm8 | B16::LDR_PC_Imm8 => word_of(b),
        B16::LDRH_Imm5 | B16::LDRH_REGS => ((b[0] as u16) | ((b[1] as u16) << 8u16)) as u32,
        B16::LDRSH_REGS => sign_extended(16, ((b[0] as u16) | ((b[1] as u16) << 8u16)) as u32),
        B16::LDRSB_REGS => sign_extended(8, b[0] as u32),
        _ => b[0] as u32,
    }
}

/// Whether a load runs without a simulator error: its address fits in 32
/// bits and is one that `load_memory` accepts.
pub open spec fn load_ok(s: System, code: B16, ops: Operands) -> bool {
    let a = load_addr(s, ops, code);
    &&& code == B16::LDR_SP_Imm8 ==> s.sp_usable()
    &&& code == B16::LDR_PC_Imm8 ==> s.registers.pc + 4 <= usize::MAX
    &&& a <= u32::MAX
    &&& load_defined(a as u32, load_size(code))
}

/// `new` is `old` after the load `code`, with result `r`: the destination
/// register holds the value read, or a HardFault leaves the state as it was.
pub open spec fn load_post(old: System, new: System, code: B16, ops: Operands, r: Result<i32, ArmException>) -> bool {
    let a = load_addr(old, ops, code) as u32;
    if code == B16::LDR_PC_Imm8 && a % 2 != 0 {
        (r matches Err(e) && e is HardFault) && new == old
    } else {
        match spec_load(old, a, load_size(code)) {
            None => (r matches Err(e) && e is HardFault) && new == old,
            Some(b) => {
                &&& r == Ok::<i32, ArmException>(2)
                &&& new.registers.generic@ == old.registers.generic@.update(load_dest(ops) as int, load_value(code, b))
                &&& new == System { registers: Registers { generic: new.registers.generic, ..old.registers }, ..old }
            },
        }
    }
}

/// A byte read as a two's complement number.
pub open spec fn signed_byte(b: u8) -> int {
    if b < 0x80 {
        b as int
    } else {
        b as int - 0x100
    }
}

proof fn lemma_sign_extended_byte(b: u8)
    by (bit_vector)
    ensures
        b < 0x80u8 ==> sign_extended(8, b as u32) == b as u32,
        b >= 0x80u8 ==> sign_extended(8, b as u32) == (b as u32) + 0xFFFF_FF00u32,
{
}

/// LDRSB reads the byte at the sum of its base and offset registers and
/// writes it to the destination sign extended: the register read as a two's
/// complement word equals the byte read as a two's complement byte, so
/// bit 7 of the byte is copied into bits 31 to 8. No other register changes.
pub proof fn lemma_ldrsb_sign_extends(
    old: System,
    new: System,
    d: u8,
    n: u8,
    m: u8,
    r: Result<i32, ArmException>,
)
    requires
        d < 13,
        r is Ok,
        load_post(old, new, B16::LDRSB_REGS, Operands::LDR_REG(DestRegister(d), SrcRegister(n), Register(m)), r),
    ensures
        ({
            let a = (old.registers.generic[n as int] + old.registers.generic[m as int]) as u32;
            let byte = old.alloc.byte(a as int);
            &&& super::instructions::signed_value(new.registers.generic[d as int]) == signed_byte(byte)
            &&& (new.registers.generic[d as int] & 0xFF) == byte as u32
        }),
        forall|k: int| 0 <= k < 13 && k != d ==> new.registers.generic[k] == old.registers.generic[k],
{
    let a = (old.registers.generic[n as int] + old.registers.generic[m as int]) as u32;
    assert(aligned(a, 1)) by {
        assert(a & ((1u32 - 1) as u32) == 0) by (bit_vector);
    }
    let bs = spec_load(old, a, 1)->0;
    assert(bs[0] == old.alloc.byte(a as int));
    let byte = bs[0];
    lemma_sign_extended_byte(byte);
    assert(new.registers.generic@[d as int] == sign_extended(8, byte as u32));
    let v = sign_extended(8, byte as u32);
    assert(byte < 0x80u8 ==> (v & 0xFF) == byte as u32) by (bit_vector)
        requires
            byte < 0x80u8 ==> v == byte as u32,
    ;
    assert(byte >= 0x80u8 ==> (v & 0xFF) == byte as u32) by (bit_vector)
        requires
            byte >= 0x80u8 ==> v == (byte as u32) + 0xFFFF_FF00u32,
    ;
}

proof fn lemma_little_endian(b0: u8, b1: u8, b2: u8, b3: u8)
    by (bit_vector)
    ensures
        ((b0 as u32) | ((b1 as u32) << 8u32) | ((b2 as u32) << 16u32) | ((b3 as u32) << 24u32)) == (b0 as u32)
            + 0x100u32 * (b1 as u32) + 0x1_0000u32 * (b2 as u32) + 0x100_0000u32 * (b3 as u32),
        (((b0 as u16) | ((b1 as u16) << 8u16)) as u32) == (b0 as u32) + 0x100u32 * (b1 as u32),
        ((b0 as u16) | ((b1 as u16) << 8u16)) & 0x8000u16 != 0 <==> b1 >= 0x80u8,
        b1 < 0x80u8 ==> sign_extended(16, ((b0 as u16) | ((b1 as u16) << 8u16)) as u32) == (b0 as u32) + 0x100u32 * (
        b1 as u32),
        b1 >= 0x80u8 ==> sign_extended(16, ((b0 as u16) | ((b1 as u16) << 8u16)) as u32) == (b0 as u32) + 0x100u32 * (
        b1 as u32) + 0xFFFF_0000u32,
{
}

/// The loads with a register offset read memory at the sum of the base and
/// offset registers, least significant byte first, outside the private
/// peripheral bus: LDRB the byte there, LDRH the half word of that byte and
/// the next, LDRSH that half word as a two's complement number, and LDR the
/// word of the four bytes from there. No other register changes.
pub proof fn lemma_register_offset_loads(
    old: System,
    new: System,
    code: B16,
    d: u8,
    n: u8,
    m: u8,
    r: Result<i32, ArmException>,
)
    requires
        d < 13,
        r is Ok,
        code == B16::LDRB_REGS || code == B16::LDRH_REGS || code == B16::LDRSH_REGS || code == B16::LDR_REGS,
        !super::in_ppb((old.registers.generic[n as int] + old.registers.generic[m as int]) as u32),
        load_post(old, new, code, Operands::LDR_REG(DestRegister(d), SrcRegister(n), Register(m)), r),
    ensures
        ({
            let a = ((old.registers.generic[n as int] + old.registers.generic[m as int]) as u32) as int;
            let z = new.registers.generic[d as int];
            let half = old.alloc.byte(a) as int + 0x100 * old.alloc.byte(a + 1) as int;
            &&& code == B16::LDRB_REGS ==> z as int == old.alloc.byte(a) as int
            &&& code == B16::LDRH_REGS ==> z as int == half
            &&& code == B16::LDRSH_REGS ==> super::instructions::signed_value(z) == (if half < 0x8000 {
                half
            } else {
                half - 0x1_0000
            })
            &&& code == B16::LDR_REGS ==> z as int == half + 0x1_0000 * old.alloc.byte(a + 2) as int + 0x100_0000
                * old.alloc.byte(a + 3) as int
        }),
        forall|k: int| 0 <= k < 13 && k != d ==> new.registers.generic[k] == old.registers.generic[k],
{
    let a = (old.registers.generic[n as int] + old.registers.generic[m as int]) as u32;
    let bs = spec_load(old, a, load_size(code))->0;
    let b0 = old.alloc.byte(a as int);
    let b1 = old.alloc.byte(a as int + 1);
    let b2 = old.alloc.byte(a as int + 2);
    let b3 = old.alloc.byte(a as int + 3);
    if code == B16::LDRB_REGS {
        assert(bs[0] == b0);
    } else if code == B16::LDR_REGS {
        assert(bs[0] == b0 && bs[1] == b1 && bs[2] == b2 && bs[3] == b3);
        lemma_little_endian(b0, b1, b2, b3);
    } else {
        assert(bs[0] == b0 && bs[1] == b1);
        lemma_little_endian(b0, b1, 0, 0);
    }
}

impl System {
    /// Runs a load.
    #[verifier::rlimit(60)]
    fn exec_load(&mut self, code: B16, ops: Operands) -> (r: Result<i32, ArmException>)
        requires
            is_load(code),
            load_shape(code, ops),
            load_ok(*old(self), code, ops),
        ensures
            load_post(*old(self), *final(self), code, ops, r),
    {
        match (code, ops) {
            (B16::LDR_REGS, Operands::LDR_REG(dest, base, offset)) => {
                let addr = self.registers.generic[base.0 as usize] + self.registers.generic[offset.0 as usize];
                let value: [u8; 4] = load_memory::<4>(self, addr)?;
                self.registers.generic[dest.0 as usize] = from_arm_bytes(value);
                Ok(2)
            },
            (B16::LDR_Imm5, Operands::LDR_Imm5(dest, base, offset)) => {
                let addr = self.registers.generic[base.0 as usize] + offset.0;
                let value: [u8; 4] = load_memory::<4>(self, addr)?;
                self.registers.generic[dest.0 as usize] = from_arm_bytes(value);
                Ok(2)
            },
            (B16::LDRH_Imm5, Operands::LDR_Imm5(dest, base, offset)) => {
                let addr = self.registers.generic[base.0 as usize] + offset.0;
                let hw_bytes: [u8; 2] = load_memory::<2>(self, addr)?;
                let hw = from_arm_bytes_16b(hw_bytes);
                self.registers.generic[dest.0 as usize] = hw as u32;
                Ok(2)
            },
            (B16::LDR_SP_Imm8, Operands::LDR_Imm8(dest, _base, offset)) => {
                let base = self.get_sp();
                let addr = base + offset.0;
                let byte_4: [u8; 4] = load_memory::<4>(self, addr)?;
                self.registers.generic[dest.0 as usize] = from_arm_bytes(byte_4);
                Ok(2)
            },
            (B16::LDRB_Imm5, Operands::LDR_Imm5(dest, base, offset)) => {
                let base_addr = self.registers.generic[base.0 as usize] + offset.0;
                let v = load_memory::<1>(self, base_addr)?;
                self.registers.generic[dest.0 as usize] = v[0] as u32;
                Ok(2)
            },
            (B16::LDRB_REGS, Operands::LDR_REG(dest, base, offset_reg)) => {
                let offset = self.registers.generic[offset_reg.0 as usize];
                let base_addr = self.registers.generic[base.0 as usize] + offset;
                let v = load_memory::<1>(self, base_addr)?;
                self.registers.generic[dest.0 as usize] = v[0] as u32;
                Ok(2)
            },
            (B16::LDRSB_REGS, Operands::LDR_REG(dest, base, offset)) => {
                let off = self.registers.generic[offset.0 as usize];
                let base_addr = self.registers.generic[base.0 as usize] + off;
                let v = load_memory::<1>(self, base_addr)?;
                let extended = sign_extend_u32::<8>(v[0] as u32);
                self.registers.generic[dest.0 as usize] = extended;
                Ok(2)
            },
            (B16::LDRSH_REGS, Operands::LDR_REG(dest, base, offset)) => {
                let off = self.registers.generic[offset.0 as usize];
                let base_addr = self.registers.generic[base.0 as usize] + off;
                let v = load_memory::<2>(self, base_addr)?;
                let word = from_arm_bytes_16b(v) as u32;
                let extended = sign_extend_u32::<16>(word);
                self.registers.generic[dest.0 as usize] = extended;
                Ok(2)
            },
            (B16::LDR_PC_Imm8, Operands::LDR_Imm8(dest, _src, offset)) => {
                let pcw = self.read_pc_word_aligned();
                let addr = Self::offset_read_pc(pcw, offset.0 as i32)?;
                let value = load_memory::<4>(self, addr)?;
                self.registers.generic[dest.0 as usize] = from_arm_bytes(value);
                Ok(2)
            },
            (B16::LDRH_REGS, Operands::LDR_REG(dest, base, offset)) => {
                let offset = self.registers.generic[offset.0 as usize];
                let base_addr = self.registers.generic[base.0 as usize] + offset;
                let v = load_memory::<2>(self, base_addr)?;
                let short = from_arm_bytes_16b(v);
                self.registers.generic[dest.0 as usize] = short as u32;
                Ok(2)
            },
            _ => {
                proof {
                    assert(false);
                }
                Ok(2)
            },
        }
    }
}

/// Whether `code` stores a register to memory.
pub open spec fn is_store(code: B16) -> bool {
    match code {
        B16::STR_Imm5 | B16::STR_Imm8 | B16::STR_REG | B16::STRB_Imm5 | B16::STRB_REG
        | B16::STRH_Imm5 | B16::STRH_REG => true,
        _ => false,
    }
}

/// The operands of a store have the shape its decoder gives.
pub open spec fn store_shape(code: B16, ops: Operands) -> bool {
    match (code, ops) {
        (B16::STR_Imm5, Operands::STR_Imm5(v, b, imm)) | (B16::STRB_Imm5, Operands::STR_Imm5(v, b, imm))
        | (B16::STRH_Imm5, Operands::STR_Imm5(v, b, imm)) => v.0 < 8 && b.0 < 8,
        (B16::STR_Imm8, Operands::STR_Imm8(v, imm)) => v.0 < 8,
        (B16::STR_REG, Operands::STR_REG(v, b, o)) | (B16::STRB_REG, Operands::STR_REG(v, b, o))
        | (B16::STRH_REG, Operands::STR_REG(v, b, o)) => v.0 < 8 && b.0 < 8 && o.0 < 8,
        _ => false,
    }
}

/// The address a store writes, before it is checked to fit in 32 bits; a
/// `STRH` with register offset wraps around.
pub open spec fn store_addr(s: System, code: B16, ops: Operands) -> int {
    match ops {
        Operands::STR_Imm5(v, b, imm) => gr(s, b.0) + imm.0,
        Operands::STR_Imm8(v, imm) => s.current_sp() + imm.0,
        Operands::STR_REG(v, b, o) => if code == B16::STRH_REG {
            (gr(s, b.0) + gr(s, o.0)) % 0x1_0000_0000
        } else {
            gr(s, b.0) + gr(s, o.0)
        },
        _ => 0,
    }
}

/// The register a store writes out.
pub open spec fn store_src(ops: Operands) -> u8 {
    match ops {
        Operands::STR_Imm5(v, b, imm) => v.0,
        Operands::STR_Imm8(v, imm) => v.0,
        Operands::STR_REG(v, b, o) => v.0,
        _ => 0,
    }
}

/// The bytes a store writes.
pub open spec fn store_bytes(s: System, code: B16, ops: Operands) -> Seq<u8> {
    let v = gr(s, store_src(ops));
    match code {
        B16::STRB_Imm5 | B16::STRB_REG => seq![(v & 0xFFu32) as u8],
        B16::STRH_Imm5 | B16::STRH_REG => le_bytes_u16((v & 0xFFFFu32) as u16)@,
        _ => le_bytes_u32(v)@,
    }
}

/// Whether a store runs without a simulator error: its address fits in 32
/// bits and the write is one that `write_memory` accepts.
pub open spec fn store_ok(s: System, code: B16, ops: Operands) -> bool {
    let a = store_addr(s, code, ops);
    &&& code == B16::STR_Imm8 ==> s.sp_usable()
    &&& a <= u32::MAX
    &&& write_defined(s, a as u32, store_bytes(s, code, ops))
}

/// `new` is `old` after the store `code`, with result `r`.
pub open spec fn store_post(old: System, new: System, code: B16, ops: Operands, r: Result<i32, ArmException>) -> bool {
    let a = store_addr(old, code, ops) as u32;
    let b = store_bytes(old, code, ops);
    if write_ok(old, a, b) {
        r == Ok::<i32, ArmException>(2) && write_post(old, new, a, b)
    } else {
        (r matches Err(e) && e is HardFault) && new == old
    }
}

proof fn lemma_byte_split(v: u32)
    by (bit_vector)
    ensures
        ((v & 0xffu32) as u8) as u32 == v % 0x100,
        (((v >> 8u32) & 0xffu32) as u8) as u32 == (v / 0x100) % 0x100,
        (((v >> 16u32) & 0xffu32) as u8) as u32 == (v / 0x1_0000) % 0x100,
        (((v >> 24u32) & 0xffu32) as u8) as u32 == v / 0x100_0000,
        ((((v & 0xFFFFu32) as u16) & 0xffu16) as u8) as u32 == v % 0x100,
        (((((v & 0xFFFFu32) as u16) >> 8u16) & 0xffu16) as u8) as u32 == (v / 0x100) % 0x100,
{
}

/// The stores with a register offset write the source register at the sum
/// of the base and offset registers, least significant byte first, outside
/// the private peripheral bus: STRB its low byte, STRH its low two bytes and
/// STR all four. Every other byte of memory and every register keep their
/// values.
pub proof fn lemma_register_offset_stores(
    old: System,
    new: System,
    code: B16,
    t: u8,
    n: u8,
    m: u8,
    r: Result<i32, ArmException>,
)
    requires
        r is Ok,
        code == B16::STRB_REG || code == B16::STRH_REG || code == B16::STR_REG,
        old.registers.generic[n as int] + old.registers.generic[m as int] <= u32::MAX,
        !super::in_ppb((old.registers.generic[n as int] + old.registers.generic[m as int]) as u32),
        store_post(old, new, code, Operands::STR_REG(SrcRegister(t), Register(n), Register(m)), r),
    ensures
        ({
            let a = old.registers.generic[n as int] + old.registers.generic[m as int];
            let v = old.registers.generic[t as int] as int;
            let size: int = if code == B16::STRB_REG { 1 } else if code == B16::STRH_REG { 2 } else { 4 };
            &&& new.alloc.byte(a) as int == v % 0x100
            &&& size >= 2 ==> new.alloc.byte(a + 1) as int == (v / 0x100) % 0x100
            &&& size == 4 ==> new.alloc.byte(a + 2) as int == (v / 0x1_0000) % 0x100
            &&& size == 4 ==> new.alloc.byte(a + 3) as int == v / 0x100_0000
            &&& forall|x: int| (x < a || x >= a + size) ==> #[trigger] new.alloc.byte(x) == old.alloc.byte(x)
        }),
        new.registers == old.registers,
{
    let a = old.registers.generic[n as int] + old.registers.generic[m as int];
    let v = old.registers.generic[t as int];
    lemma_byte_split(v);
    let ops = Operands::STR_REG(SrcRegister(t), Register(n), Register(m));
    let b = store_bytes(old, code, ops);
    assert(store_addr(old, code, ops) as u32 == a);
    assert(write_post(old, new, a as u32, b));
    let after = new.alloc.pages_map();
    assert(byte_in(after, a) == b[0]);
    if code != B16::STRB_REG {
        assert(byte_in(after, a + 1) == b[1]);
    }
    if code == B16::STR_REG {
        assert(byte_in(after, a + 2) == b[2]);
        assert(byte_in(after, a + 3) == b[3]);
    }
}

impl System {
    /// Runs a store.
    #[verifier::rlimit(60)]
    fn exec_store(&mut self, code: B16, ops: Operands) -> (r: Result<i32, ArmException>)
        requires
            is_store(code),
            store_shape(code, ops),
            store_ok(*old(self), code, ops),
        ensures
            store_post(*old(self), *final(self), code, ops, r),
    {
        match (code, ops) {
            (B16::STR_Imm5, Operands::STR_Imm5(v_reg, base, offset)) => {
                let base_v = self.registers.generic[base.0 as usize];
                let addr = base_v + offset.0;
                let val = self.registers.generic[v_reg.0 as usize];
                write_memory::<4>(self, addr, u32_to_arm_bytes(val))?;
                Ok(2)
            },
            (B16::STR_Imm8, Operands::STR_Imm8(src, offset)) => {
                let addr = self.get_sp() + offset.0;
                let val = self.registers.generic[src.0 as usize];
                write_memory::<4>(self, addr, u32_to_arm_bytes(val))?;
                Ok(2)
            },
            (B16::STR_REG, Operands::STR_REG(src, base, offset)) => {
                let base_v = self.registers.generic[base.0 as usize];
                let offset_v = self.registers.generic[offset.0 as usize];
                let addr = base_v + offset_v;
                let v = self.registers.generic[src.0 as usize];
                write_memory::<4>(self, addr, u32_to_arm_bytes(v))?;
                Ok(2)
            },
            (B16::STRB_Imm5, Operands::STR_Imm5(src, base, offset)) => {
                let base_v = self.registers.generic[base.0 as usize];
                let addr = base_v + offset.0;
                let v = (self.registers.generic[src.0 as usize] & 0xFF) as u8;
                let bytes: [u8; 1] = [v];
                proof {
                    assert(bytes@ =~= store_bytes(*old(self), code, ops));
                }
                write_memory::<1>(self, addr, bytes)?;
                Ok(2)
            },
            (B16::STRB_REG, Operands::STR_REG(src, base, offset)) => {
                let base_v = self.registers.generic[base.0 as usize];
                let offset_v = self.registers.generic[offset.0 as usize];
                let addr = base_v + offset_v;
                let v = (self.registers.generic[src.0 as usize] & 0xFF) as u8;
                let bytes: [u8; 1] = [v];
                proof {
                    assert(bytes@ =~= store_bytes(*old(self), code, ops));
                }
                write_memory::<1>(self, addr, bytes)?;
                Ok(2)
            },
            (B16::STRH_Imm5, Operands::STR_Imm5(src, base, offset)) => {
                let base_v = self.registers.generic[base.0 as usize];
                let addr = base_v + offset.0;
                let v = (self.registers.generic[src.0 as usize] & 0xFFFF) as u16;
                write_memory::<2>(self, addr, u16_to_arm_bytes(v))?;
                Ok(2)
            },
            (B16::STRH_REG, Operands::STR_REG(src, base, offset)) => {
                let base_v = self.registers.generic[base.0 as usize];
                let offset_v = self.registers.generic[offset.0 as usize];
                let addr = match base_v.checked_add(offset_v) {
                    Some(a) => a,
                    None => base_v.wrapping_add(offset_v),
                };
                let v = (self.registers.generic[src.0 as usize] & 0xFFFF) as u16;
                write_memory::<2>(self, addr, u16_to_arm_bytes(v))?;
                Ok(2)
            },
            _ => {
                proof {
                    assert(false);
                }
                Ok(2)
            },
        }
    }
}

/// The word that a load of four bytes at `a` gives.
pub open spec fn load_word(s: System, a: int) -> u32 {
    word_of(spec_load(s, a as u32, 4)->0)
}

/// The `n` words from `ptr` on, as loads give them.
pub open spec fn loaded_words(s: System, ptr: u32, n: nat) -> Seq<u32> {
    Seq::new(n, |k: int| load_word(s, ptr + 4 * k))
}

/// The general registers `g` with the first `k` of `regs` set to the
/// matching `vals`; entries that name no general register are skipped.
pub open spec fn regs_loaded(g: Seq<u32>, regs: Seq<u8>, vals: Seq<u32>, k: nat) -> Seq<u32>
    decreases k,
{
    if k == 0 || k > regs.len() {
        g
    } else {
        let prev = regs_loaded(g, regs, vals, (k - 1) as nat);
        if regs[k - 1] < 13 {
            prev.update(regs[k - 1] as int, vals[k - 1])
        } else {
            prev
        }
    }
}

/// The values the registers `regs` hold in `s`, LR for 14.
pub open spec fn reg_values(s: System, regs: Seq<u8>) -> Seq<u32> {
    Seq::new(regs.len(), |k: int| if regs[k] == 14 { s.registers.lr } else { gr(s, regs[k]) })
}

/// Every load of a word at the `n` addresses from `ptr` on is defined.
pub open spec fn loads_defined(ptr: u32, n: nat) -> bool {
    forall|k: int| 0 <= k < n ==> #[trigger] load_defined((ptr + 4 * k) as u32, 4)
}

proof fn lemma_word_addr(a: u32, k: u32)
    by (bit_vector)
    requires
        a as int + 4 * k as int + 4 <= 0x1_0000_0000,
    ensures
        ((a + 4 * k) as u32) & 3u32 == a & 3u32,
        a & 3u32 == 0 ==> (((a + 4 * k) as u32) as int) % 2048 + 4 <= 2048,
{
}

/// Whether `code` loads or stores a list of registers.
pub open spec fn is_multi(code: B16) -> bool {
    code == B16::LDM || code == B16::STM || code == B16::PUSH || code == B16::POP
}

/// The registers an `LDM` loads, from `ptr` on, and whether the base
/// register is written back.
pub open spec fn ldm_generic(s: System, base: u8, list: u16) -> Seq<u32> {
    let regs = set_bits(list);
    let n = regs.len();
    let ptr = gr(s, base);
    let g = regs_loaded(s.registers.generic@, regs, loaded_words(s, ptr, n), n);
    if list & (1u16 << (base as u16)) == 0 {
        g.update(base as int, (ptr + 4 * n) as u32)
    } else {
        g
    }
}

/// The operands of a multiple load or store have the shape the decoder
/// gives.
pub open spec fn multi_shape(code: B16, ops: Operands) -> bool {
    match (code, ops) {
        (B16::LDM, Operands::LoadableList(b, list)) | (B16::STM, Operands::LoadableList(b, list)) => b.0 < 8
            && list < 256,
        (B16::PUSH, Operands::RegisterList(list)) => list & 0xBF00u16 == 0,
        (B16::POP, Operands::RegisterList(list)) => list & 0x7F00u16 == 0,
        _ => false,
    }
}

/// Whether an `LDM` or `STM` runs without a simulator error: its addresses
/// fit in 32 bits, and the accesses are defined, a store's outside the
/// private peripheral bus.
pub open spec fn ldm_stm_ok(s: System, code: B16, base: u8, list: u16) -> bool {
    let n = set_bits(list).len();
    let ptr = gr(s, base);
    &&& ptr + 4 * n <= u32::MAX
    &&& code == B16::LDM && n > 0 && aligned(ptr, 4) ==> loads_defined(ptr, n)
    &&& code == B16::STM && n > 0 && aligned(ptr, 4) ==> outside_ppb(ptr, 4 * n)
}

/// `new` is `old` after an `LDM` or `STM` of `list` based on register
/// `base`, with result `r`.
pub open spec fn ldm_stm_post(old: System, new: System, code: B16, base: u8, list: u16, r: Result<i32, ArmException>) -> bool {
    let regs = set_bits(list);
    let n = regs.len();
    let ptr = gr(old, base);
    if n > 0 && !aligned(ptr, 4) {
        (r matches Err(e) && e is HardFault) && new == old
    } else if code == B16::LDM {
        &&& r == Ok::<i32, ArmException>(2)
        &&& new.registers.generic@ == ldm_generic(old, base, list)
        &&& new == System { registers: Registers { generic: new.registers.generic, ..old.registers }, ..old }
    } else {
        &&& r == Ok::<i32, ArmException>(2)
        &&& written(old.alloc.pages_map(), new.alloc.pages_map(), ptr as int, words_bytes(reg_values(old, regs)))
        &&& new.alloc.pages_map().dom() == old.alloc.pages_map().dom().union(word_pages(ptr, n))
        &&& new.registers.generic@ == old.registers.generic@.update(base as int, (ptr + 4 * n) as u32)
        &&& new == System {
            registers: Registers { generic: new.registers.generic, ..old.registers },
            alloc: new.alloc,
            ..old
        }
    }
}

impl System {
    /// Runs an `LDM` or `STM`.
    #[verifier::rlimit(60)]
    fn exec_ldm_stm(&mut self, code: B16, base: u8, list: u16) -> (r: Result<i32, ArmException>)
        requires
            code == B16::LDM || code == B16::STM,
            base < 8,
            list < 256,
            ldm_stm_ok(*old(self), code, base, list),
        ensures
            ldm_stm_post(*old(self), *final(self), code, base, list, r),
    {
        let ghost old_sys = *self;
        let registers = get_set_bits(list);
        let ghost regs = registers@;
        let ghost n = regs.len();
        let ptr = self.registers.generic[base as usize];
        proof {
            lemma_set_bits_low(list);
        }
        let mut data_ptr = ptr;
        let mut i: usize = 0;
        if code == B16::LDM {
            let ghost vals = loaded_words(old_sys, ptr, n);
            while i < registers.len()
                invariant
                    regs == registers@,
                    old_sys == *old(self),
                    regs == set_bits(list),
                    n == regs.len(),
                    n <= 16,
                    forall|k: int| 0 <= k < n ==> #[trigger] regs[k] < 8,
                    i <= n,
                    ptr == gr(old_sys, base),
                    ptr + 4 * n <= u32::MAX,
                    n > 0 && aligned(ptr, 4) ==> loads_defined(ptr, n),
                    vals == loaded_words(old_sys, ptr, n),
                    data_ptr == ptr + 4 * i,
                    i > 0 ==> aligned(ptr, 4),
                    self.registers.generic@ == regs_loaded(old_sys.registers.generic@, regs, vals, i as nat),
                    *self == (System { registers: Registers { generic: self.registers.generic, ..old_sys.registers }, ..old_sys }),
                decreases n - i,
            {
                let reg = registers[i];
                proof {
                    lemma_word_addr(ptr, i as u32);
                    if aligned(ptr, 4) {
                        assert(load_defined((ptr + 4 * i) as u32, 4));
                    }
                }
                let bytes = match load_memory::<4>(self, data_ptr) {
                    Ok(b) => b,
                    Err(e) => {
                        proof {
                            assert(self.registers.generic =~= old_sys.registers.generic);
                        }
                        return Err(e);
                    },
                };
                let v = from_arm_bytes(bytes);
                self.registers.generic[reg as usize] = v;
                data_ptr = data_ptr + 4;
                i = i + 1;
            }
            proof {
                crate::binutils::lemma_list_facts(list, base as u16);
            }
            let write_back = ((1u16 << base as u16) & list) == 0;
            if write_back {
                self.registers.generic[base as usize] = data_ptr;
            }
            Ok(2)
        } else {
            let ghost vals = reg_values(old_sys, regs);
            let ghost m0 = old_sys.alloc.pages_map();
            proof {
                assert(words_bytes(vals.take(0)) =~= Seq::<u8>::empty());
                assert(m0.dom() =~= m0.dom().union(word_pages(ptr, 0)));
            }
            while i < registers.len()
                invariant
                    regs == registers@,
                    old_sys == *old(self),
                    regs == set_bits(list),
                    n == regs.len(),
                    n <= 16,
                    forall|k: int| 0 <= k < n ==> #[trigger] regs[k] < 8,
                    i <= n,
                    ptr == gr(old_sys, base),
                    ptr + 4 * n <= u32::MAX,
                    n > 0 && aligned(ptr, 4) ==> outside_ppb(ptr, 4 * n),
                    vals == reg_values(old_sys, regs),
                    m0 == old_sys.alloc.pages_map(),
                    data_ptr == ptr + 4 * i,
                    i > 0 ==> aligned(ptr, 4),
                    written(m0, self.alloc.pages_map(), ptr as int, words_bytes(vals.take(i as int))),
                    i == 0 ==> self.alloc == old_sys.alloc,
                    self.alloc.pages_map().dom() == m0.dom().union(word_pages(ptr, i as nat)),
                    *self == (System { alloc: self.alloc, ..old_sys }),
                decreases n - i,
            {
                let reg = registers[i];
                proof {
                    lemma_word_addr(ptr, i as u32);
                }
                let ghost before = self.alloc.pages_map();
                let bytes = u32_to_arm_bytes(self.registers.generic[reg as usize]);
                write_memory::<4>(self, data_ptr, bytes)?;
                proof {
                    lemma_frame_step(m0, before, self.alloc.pages_map(), ptr, vals, i as int);
                    assert(self.alloc.pages_map().dom() =~= m0.dom().union(word_pages(ptr, (i + 1) as nat))) by {
                        assert forall|p: u32| word_pages(ptr, (i + 1) as nat).contains(p) implies word_pages(ptr, i as nat).contains(p)
                            || p == data_ptr / (PAGE_SIZE as u32) by {}
                        assert(word_pages(ptr, (i + 1) as nat).contains(data_ptr / (PAGE_SIZE as u32))) by {
                            assert(data_ptr / (PAGE_SIZE as u32) == ((ptr + 4 * (i as int)) as u32 / (PAGE_SIZE as u32)));
                        }
                    }
                }
                data_ptr = data_ptr + 4;
                i = i + 1;
            }
            proof {
                assert(vals.take(n as int) =~= vals);
            }
            self.registers.generic[base as usize] = data_ptr;
            Ok(2)
        }
    }
}

/// Whether a `PUSH` of `list` runs without a simulator error: the stack
/// has room and the stored words lie outside the private peripheral bus.
pub open spec fn push_ok(s: System, list: u16) -> bool {
    let n = set_bits(list).len();
    let sp = s.current_sp();
    &&& s.sp_usable()
    &&& sp >= 4 * n
    &&& n > 0 && aligned((sp - 4 * n) as u32, 4) ==> outside_ppb((sp - 4 * n) as u32, 4 * n)
}

/// `new` is `old` after a `PUSH` of `list`, with result `r`: the registers
/// stored below the stack pointer, which moves down past them.
pub open spec fn push_post(old: System, new: System, list: u16, r: Result<i32, ArmException>) -> bool {
    let regs = set_bits(list);
    let n = regs.len();
    let new_sp = (old.current_sp() - 4 * n) as u32;
    if !aligned(new_sp, 4) {
        (r matches Err(e) && e is HardFault) && new == old
    } else {
        &&& r == Ok::<i32, ArmException>(2)
        &&& written(old.alloc.pages_map(), new.alloc.pages_map(), new_sp as int, words_bytes(reg_values(old, regs)))
        &&& new.alloc.pages_map().dom() == old.alloc.pages_map().dom().union(word_pages(new_sp, n))
        &&& new == System { registers: with_sp(old, new_sp).registers, alloc: new.alloc, ..old }
    }
}

impl System {
    /// Runs a `PUSH`.
    #[verifier::rlimit(60)]
    fn exec_push(&mut self, list: u16) -> (r: Result<i32, ArmException>)
        requires
            list & 0xBF00u16 == 0,
            push_ok(*old(self), list),
        ensures
            push_post(*old(self), *final(self), list, r),
    {
        let ghost old_sys = *self;
        let set_bits_v = get_set_bits(list);
        let ghost regs = set_bits_v@;
        let ghost n = regs.len();
        proof {
            assert(list & 0x3F00u16 == 0 && list & 0x8000u16 == 0) by {
                crate::binutils::lemma_list_facts(list, 0);
                assert(list & 0xBF00u16 == 0 ==> list & 0x3F00u16 == 0 && list & 0x8000u16 == 0) by (bit_vector);
            }
            lemma_set_bits_list(list);
        }
        let offset: u32 = (4 * set_bits_v.len()) as u32;
        let new_sp = self.get_sp() - offset;
        let mut addr = new_sp;
        let ghost vals = reg_values(old_sys, regs);
        let ghost m0 = old_sys.alloc.pages_map();
        proof {
            assert(words_bytes(vals.take(0)) =~= Seq::<u8>::empty());
            assert(m0.dom() =~= m0.dom().union(word_pages(new_sp, 0)));
        }
        let mut i: usize = 0;
        while i < set_bits_v.len()
            invariant
                regs == set_bits_v@,
                old_sys == *old(self),
                regs == set_bits(list),
                n == regs.len(),
                n <= 16,
                forall|k: int| 0 <= k < n ==> #[trigger] regs[k] < 8 || regs[k] == 14,
                i <= n,
                new_sp == (old_sys.current_sp() - 4 * n) as u32,
                new_sp + 4 * n <= u32::MAX,
                n > 0 && aligned(new_sp, 4) ==> outside_ppb(new_sp, 4 * n),
                vals == reg_values(old_sys, regs),
                m0 == old_sys.alloc.pages_map(),
                addr == new_sp + 4 * i,
                i > 0 ==> aligned(new_sp, 4),
                written(m0, self.alloc.pages_map(), new_sp as int, words_bytes(vals.take(i as int))),
                i == 0 ==> self.alloc == old_sys.alloc,
                self.alloc.pages_map().dom() == m0.dom().union(word_pages(new_sp, i as nat)),
                *self == (System { alloc: self.alloc, ..old_sys }),
            decreases n - i,
        {
            let reg_bit = set_bits_v[i];
            proof {
                lemma_word_addr(new_sp, i as u32);
            }
            let v = if reg_bit == crate::thumb::LINK_REGISTER {
                self.registers.lr
            } else {
                self.registers.generic[reg_bit as usize]
            };
            let ghost before = self.alloc.pages_map();
            write_memory(self, addr, u32_to_arm_bytes(v))?;
            proof {
                lemma_frame_step(m0, before, self.alloc.pages_map(), new_sp, vals, i as int);
                assert(self.alloc.pages_map().dom() =~= m0.dom().union(word_pages(new_sp, (i + 1) as nat))) by {
                    assert forall|p: u32| word_pages(new_sp, (i + 1) as nat).contains(p) implies word_pages(new_sp, i as nat).contains(p)
                        || p == addr / (PAGE_SIZE as u32) by {}
                    assert(word_pages(new_sp, (i + 1) as nat).contains(addr / (PAGE_SIZE as u32))) by {
                        assert(addr / (PAGE_SIZE as u32) == ((new_sp + 4 * (i as int)) as u32 / (PAGE_SIZE as u32)));
                    }
                }
            }
            addr = addr + 4;
            i = i + 1;
        }
        proof {
            assert(vals.take(n as int) =~= vals);
        }
        self.set_sp(new_sp)?;
        Ok(2)
    }
}

/// The registers a `POP` of `list` loads, other than the program counter.
pub open spec fn pop_mid(old: System, mid: System, list: u16) -> bool {
    let regs = set_bits(list);
    let n = regs.len();
    let sp = old.current_sp();
    &&& mid.registers.generic@ == regs_loaded(old.registers.generic@, regs, loaded_words(old, sp, n), n)
    &&& mid == System { registers: Registers { generic: mid.registers.generic, ..old.registers }, ..old }
}

/// Whether a `POP` of `list` runs without a simulator error: the loads are
/// defined, and a loaded program counter branches without error to a state
/// whose stack pointer can be set.
pub open spec fn pop_ok(s: System, list: u16) -> bool {
    let n = set_bits(list).len();
    let sp = s.current_sp();
    let v = loaded_words(s, sp, n)[n - 1];
    &&& s.sp_usable()
    &&& sp + 4 * n <= u32::MAX
    &&& n > 0 && aligned(sp, 4) ==> {
        &&& loads_defined(sp, n)
        &&& list & 0x8000u16 != 0 ==> forall|mid: System| #[trigger] pop_mid(s, mid, list) ==> {
            &&& bx_defined(mid, v)
            &&& forall|mid2: System, off: i32| #[trigger] bx_post(mid, mid2, v, Ok(off)) ==> mid2.sp_usable()
        }
    }
}

/// `new` is `old` after a `POP` of `list`, with result `r`: the registers
/// loaded from the stack, a loaded program counter branched to, and the
/// stack pointer moved up past them.
pub open spec fn pop_post(old: System, new: System, list: u16, r: Result<i32, ArmException>) -> bool {
    let regs = set_bits(list);
    let n = regs.len();
    let sp = old.current_sp();
    let top = (sp + 4 * n) as u32;
    let v = loaded_words(old, sp, n)[n - 1];
    if n > 0 && !aligned(sp, 4) {
        (r matches Err(e) && e is HardFault) && new == old
    } else if list & 0x8000u16 == 0 {
        exists|mid: System| #[trigger] pop_mid(old, mid, list) && if aligned(top, 4) {
            r == Ok::<i32, ArmException>(2) && new == with_sp(mid, top)
        } else {
            (r matches Err(e) && e is HardFault) && new == mid
        }
    } else {
        exists|mid: System, mid2: System, rb: Result<i32, ArmException>|
            #![trigger pop_mid(old, mid, list), bx_post(mid, mid2, v, rb)]
            pop_mid(old, mid, list) && bx_post(mid, mid2, v, rb) && match rb {
                Err(e) => r == Err::<i32, ArmException>(e) && new == mid2,
                Ok(off) => if aligned(top, 4) {
                    r == Ok::<i32, ArmException>(off) && new == with_sp(mid2, top)
                } else {
                    (r matches Err(e) && e is HardFault) && new == mid2
                },
            }
    }
}

impl System {
    /// Runs a `POP`.
    #[verifier::rlimit(80)]
    fn exec_pop(&mut self, list: u16) -> (r: Result<i32, ArmException>)
        requires
            list & 0x7F00u16 == 0,
            pop_ok(*old(self), list),
        ensures
            pop_post(*old(self), *final(self), list, r),
    {
        let ghost old_sys = *self;
        let mut offset: i32 = 2;
        let set_bits_v = get_set_bits(list);
        let ghost regs = set_bits_v@;
        let n = set_bits_v.len();
        proof {
            assert(list & 0x3F00u16 == 0 && list & 0x4000u16 == 0) by {
                assert(list & 0x7F00u16 == 0 ==> list & 0x3F00u16 == 0 && list & 0x4000u16 == 0) by (bit_vector);
            }
            lemma_set_bits_list(list);
        }
        let sp = self.get_sp();
        let top = sp + (4 * n) as u32;
        let mut addr = sp;
        let pc_in = (list & 0x8000) != 0;
        let count = if pc_in { n - 1 } else { n };
        let ghost vals = loaded_words(old_sys, sp, n as nat);
        let mut i: usize = 0;
        while i < count
            invariant
                regs == set_bits_v@,
                old_sys == *old(self),
                regs == set_bits(list),
                n == regs.len(),
                n <= 16,
                forall|k: int| 0 <= k < n ==> #[trigger] regs[k] < 8 || regs[k] == 15,
                forall|k: int| 0 <= k < n ==> (#[trigger] regs[k] == 15 <==> (k == n - 1 && list & 0x8000u16 != 0)),
                count == if pc_in { n - 1 } else { n as int },
                pc_in == (list & 0x8000u16 != 0),
                i <= count,
                sp == old_sys.current_sp(),
                sp + 4 * n <= u32::MAX,
                n > 0 && aligned(sp, 4) ==> loads_defined(sp, n as nat),
                vals == loaded_words(old_sys, sp, n as nat),
                addr == sp + 4 * i,
                i > 0 ==> aligned(sp, 4),
                self.registers.generic@ == regs_loaded(old_sys.registers.generic@, regs, vals, i as nat),
                *self == (System { registers: Registers { generic: self.registers.generic, ..old_sys.registers }, ..old_sys }),
            decreases count - i,
        {
            let reg_bit = set_bits_v[i];
            proof {
                lemma_word_addr(sp, i as u32);
                if aligned(sp, 4) {
                    assert(load_defined((sp + 4 * i) as u32, 4));
                }
            }
            let v = match load_memory::<4>(self, addr) {
                Ok(b) => b,
                Err(e) => {
                    proof {
                        assert(self.registers.generic =~= old_sys.registers.generic);
                    }
                    return Err(e);
                },
            };
            self.registers.generic[reg_bit as usize] = from_arm_bytes(v);
            addr = addr + 4;
            i = i + 1;
        }
        let ghost mid = *self;
        proof {
            if pc_in {
                assert(regs_loaded(old_sys.registers.generic@, regs, vals, n as nat) == regs_loaded(
                    old_sys.registers.generic@,
                    regs,
                    vals,
                    count as nat,
                ));
            }
            assert(pop_mid(old_sys, mid, list));
        }
        let ghost mut mid2 = mid;
        let ghost mut rb: Result<i32, ArmException> = Ok(2);
        if pc_in {
            proof {
                lemma_word_addr(sp, i as u32);
                if aligned(sp, 4) {
                    assert(load_defined((sp + 4 * i) as u32, 4));
                }
            }
            let v = match load_memory::<4>(self, addr) {
                Ok(b) => b,
                Err(e) => {
                    proof {
                        assert(self.registers.generic =~= old_sys.registers.generic);
                    }
                    return Err(e);
                },
            };
            let target = from_arm_bytes(v);
            let res = self.bx_interworking_pc_offset(target);
            proof {
                mid2 = *self;
                rb = res;
            }
            offset = match res {
                Ok(o) => o,
                Err(e) => {
                    return Err(e);
                },
            };
            addr = addr + 4;
        }
        self.set_sp(top)?;
        Ok(offset)
    }
}


/// The operands of the 16 bit instruction `code` have the shape its decoder
/// gives.
pub open spec fn shape_16(code: B16, ops: Option<Operands>) -> bool {
    if is_misc(code) {
        true
    } else {
        match ops {
            Some(o) => if is_alu(code) {
                alu_shape(code, o)
            } else if is_move(code) {
                move_shape(code, o)
            } else if is_branch(code) {
                branch_shape(code, o)
            } else if is_load(code) {
                load_shape(code, o)
            } else if is_store(code) {
                store_shape(code, o)
            } else {
                multi_shape(code, o)
            },
            None => false,
        }
    }
}

/// Whether the 16 bit instruction `code` runs on `s` without a simulator
/// error.
pub open spec fn ok_16(s: System, code: B16, ops: Option<Operands>) -> bool {
    if is_misc(code) {
        misc_ok(s, code, ops)
    } else {
        match ops {
            Some(o) => if is_alu(code) {
                alu_ok(s, code, o)
            } else if is_move(code) {
                move_ok(s, code, o)
            } else if is_branch(code) {
                branch_ok(s, code, o)
            } else if is_load(code) {
                load_ok(s, code, o)
            } else if is_store(code) {
                store_ok(s, code, o)
            } else {
                match o {
                    Operands::LoadableList(b, list) => ldm_stm_ok(s, code, b.0, list),
                    Operands::RegisterList(list) => if code == B16::PUSH {
                        push_ok(s, list)
                    } else {
                        pop_ok(s, list)
                    },
                    _ => false,
                }
            },
            None => false,
        }
    }
}

/// `new` is `old` after the 16 bit instruction `code`, with result `r`: the
/// offset to move the program counter by.
pub open spec fn post_16(old: System, new: System, code: B16, ops: Option<Operands>, r: Result<i32, ArmException>) -> bool {
    if is_misc(code) {
        misc_post(old, new, code, ops, r)
    } else {
        match ops {
            Some(o) => if is_alu(code) {
                alu_post(old, new, code, o) && r == Ok::<i32, ArmException>(2)
            } else if is_move(code) {
                move_group_post(old, new, code, o, r)
            } else if is_branch(code) {
                branch_post(old, new, code, o, r)
            } else if is_load(code) {
                load_post(old, new, code, o, r)
            } else if is_store(code) {
                store_post(old, new, code, o, r)
            } else {
                match o {
                    Operands::LoadableList(b, list) => ldm_stm_post(old, new, code, b.0, list, r),
                    Operands::RegisterList(list) => if code == B16::PUSH {
                        push_post(old, new, list, r)
                    } else {
                        pop_post(old, new, list, r)
                    },
                    _ => false,
                }
            },
            None => false,
        }
    }
}

impl System {
    /// Runs the 16 bit instruction `code` with operands `ops`; gives the
    /// offset to move the program counter by.
    #[verifier::rlimit(40)]
    pub(crate) fn exec_16(&mut self, code: B16, ops: Option<Operands>) -> (r: Result<i32, ArmException>)
        requires
            shape_16(code, ops),
            ok_16(*old(self), code, ops),
        ensures
            post_16(*old(self), *final(self), code, ops, r),
    {
        match code {
            B16::ADCS | B16::ADD_Imm3 | B16::ADD_Imm8 | B16::ADDS_REG | B16::ANDS | B16::ASRS_Imm5
            | B16::ASRS_REG | B16::BIT_CLEAR_REGISTER | B16::CMP_NEG_REG | B16::CMP_Imm8
            | B16::CMP_REG_T1 | B16::CMP_REG_T2 | B16::XOR_REG | B16::SUB_Imm3 | B16::SUB_Imm8
            | B16::SUB_REG | B16::SXTB | B16::SXTH | B16::MUL | B16::ORR | B16::LSL_Imm5
            | B16::LSL_REGS | B16::LSR_Imm5 | B16::LSR_REGS | B16::SBC | B16::TST | B16::UXTB
            | B16::UXTH | B16::REV | B16::REV_16 | B16::REVSH | B16::ROR | B16::RSB
            | B16::ADD_REG_SP_IMM8 | B16::ADR => match ops {
                Some(o) => {
                    self.exec_alu(code, o);
                    Ok(2)
                },
                None => Ok(2),
            },
            B16::ADDS_REG_T2 | B16::MOV_Imm8 | B16::MOV_REGS_T1 | B16::MOV_REGS_T2 | B16::MVN
            | B16::INCR_SP_BY_IMM7 | B16::INCR_SP_BY_REG | B16::SUB_SP_Imm7 => match ops {
                Some(o) => self.exec_move(code, o),
                None => Ok(2),
            },
            B16::BEQ | B16::BNEQ | B16::B_CARRY_IS_SET | B16::B_CARRY_IS_CLEAR | B16::B_IF_NEGATIVE
            | B16::B_IF_POSITIVE | B16::B_IF_OVERFLOW | B16::B_IF_NO_OVERFLOW
            | B16::B_UNSIGNED_HIGHER | B16::B_UNSIGNED_LOWER_OR_SAME | B16::B_GTE | B16::B_LT
            | B16::B_GT | B16::B_LTE | B16::B_ALWAYS | B16::BR_EXCHANGE | B16::BR_LNK_EXCHANGE => match ops {
                Some(o) => self.exec_branch(code, o),
                None => Ok(2),
            },
            B16::LDR_REGS | B16::LDR_Imm5 | B16::LDRH_Imm5 | B16::LDR_SP_Imm8 | B16::LDRB_Imm5
            | B16::LDRB_REGS | B16::LDRSB_REGS | B16::LDRSH_REGS | B16::LDR_PC_Imm8 | B16::LDRH_REGS => match ops {
                Some(o) => self.exec_load(code, o),
                None => Ok(2),
            },
            B16::STR_Imm5 | B16::STR_Imm8 | B16::STR_REG | B16::STRB_Imm5 | B16::STRB_REG
            | B16::STRH_Imm5 | B16::STRH_REG => match ops {
                Some(o) => self.exec_store(code, o),
                None => Ok(2),
            },
            B16::LDM | B16::STM => match ops {
                Some(Operands::LoadableList(base, list)) => self.exec_ldm_stm(code, base.0, list),
                _ => Ok(2),
            },
            B16::PUSH => match ops {
                Some(Operands::RegisterList(list)) => self.exec_push(list),
                _ => Ok(2),
            },
            B16::POP => match ops {
                Some(Operands::RegisterList(list)) => self.exec_pop(list),
                _ => Ok(2),
            },
            B16::BREAKPOINT | B16::CPS | B16::SEV | B16::NOP | B16::YIELD | B16::WFE | B16::WFI
            | B16::UNDEFINED | B16::SVC => self.exec_misc(code, ops),
        }
    }
}

} // verus!
