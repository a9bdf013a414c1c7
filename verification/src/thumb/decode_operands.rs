//! The operands of each instruction, and their text.
use vstd::prelude::*;
use vstd::string::StringExecFns;
use super::search::chars_of;
use crate::binutils::{
    from_arm_bytes_16b, get_bitfield, sign_extend, le_u16, ones, sign_extended, BitList,
    BitField, lemma_ones_values, get_set_bits, set_bits, lemma_set_bits_below,
};
use crate::system::registers::SpecialRegister;
use super::{DestRegister, HalfWord, Literal, Register, SrcRegister, Word, STACK_POINTER, PROGRAM_COUNTER};
use super::decode::{Opcode, B16, B32};
pub use super::listing::pretty_print;

verus! {

/// The operands of a decoded instruction.
#[allow(non_camel_case_types)]
#[derive(Debug, Clone, Copy)]
pub enum Operands {
    ADD_REG_SP_IMM8(DestRegister, Literal<8>),
    INCR_SP_BY_IMM7(Literal<7>),
    INCR_SP_BY_REG(Register),
    ADR(DestRegister, Literal<8>),
    ASRS_Imm5(DestRegister, SrcRegister, Literal<5>),
    COND_BRANCH(i32),
    B_ALWAYS(i32),
    BREAKPOINT(Literal<8>),
    BR_LNK(i32),
    BR_LNK_EXCHANGE(Register),
    BR_EXCHANGE(Register),
    CMP_Imm8(Register, Literal<8>),
    LDR_Imm5(DestRegister, SrcRegister, Literal<5>),
    LDR_Imm8(DestRegister, SrcRegister, Literal<8>),
    LDR_REG(DestRegister, SrcRegister, Register),
    LS_Imm5(DestRegister, SrcRegister, Literal<5>),
    MOV_REG(DestRegister, SrcRegister),
    DestImm8(DestRegister, Literal<8>),
    LoadableList(Register, BitList),
    RegisterPair(DestRegister, Register),
    RegPairImm3(DestRegister, SrcRegister, Literal<3>),
    RegisterTriplet(DestRegister, SrcRegister, Register),
    PureRegisterPair(Register, Register),
    RegisterList(BitList),
    STR_Imm5(SrcRegister, Register, Literal<5>),
    STR_Imm8(SrcRegister, Literal<8>),
    STR_REG(SrcRegister, Register, Register),
    SP_SUB(Literal<7>),
    Byte(Literal<8>),
    HalfWord(Literal<16>),
    EnableInterupt(bool),
    MSR(SpecialRegister, SrcRegister),
    MRS(DestRegister, SpecialRegister),
    Nibble(Literal<4>),
}

// ---------------------------------------------------------------------
// Fields of a 16 bit encoding.
// ---------------------------------------------------------------------

/// Bits 2 to 0: the destination (or first) low register.
pub open spec fn f_rd(hw: HalfWord) -> u8 {
    hw[0] & 0x07
}

/// Bits 5 to 3: the source (or second) low register.
pub open spec fn f_rn(hw: HalfWord) -> u8 {
    (hw[0] & 0x38) >> 3u8
}

/// Bits 8 to 6: the third low register.
pub open spec fn f_rm(hw: HalfWord) -> u8 {
    ((le_u16(hw) & 0x01C0) >> 6u16) as u8
}

/// Bits 10 to 8: the low register of the encodings with an eight bit
/// immediate.
pub open spec fn f_rhi(hw: HalfWord) -> u8 {
    hw[1] & 0x07
}

/// Bits 10 to 6: a five bit immediate.
pub open spec fn f_imm5(hw: HalfWord) -> u32 {
    ((le_u16(hw) as u32) >> 6u32) & 31u32
}

/// Bits 8 to 6: a three bit immediate.
pub open spec fn f_imm3(hw: HalfWord) -> u32 {
    ((le_u16(hw) as u32) >> 6u32) & 7u32
}

/// Bits 6 to 3: a full register number.
pub open spec fn f_rm4(hw: HalfWord) -> u8 {
    (((hw[0] as u32) >> 3u32) & 15u32) as u8
}

/// Bit 7 joined to bits 2 to 0: a full destination register number.
pub open spec fn f_rdn4(hw: HalfWord) -> u8 {
    (hw[0] & 0x07) | ((hw[0] & 0x80) >> 4u8)
}

/// The offset of a conditional branch: the eight bit immediate doubled and
/// sign extended, plus the four bytes that the program counter runs ahead.
pub open spec fn cond_branch_offset(hw: HalfWord) -> int {
    (hw[0] as i8) as int * 2 + 4
}

/// The offset of an unconditional branch: the eleven bit immediate doubled
/// and sign extended, plus four.
pub open spec fn uncond_branch_offset(hw: HalfWord) -> int {
    let imm11 = (le_u16(hw) & 0x07FF) as int;
    (if imm11 >= 1024 { imm11 - 2048 } else { imm11 }) * 2 + 4
}

/// The 25 bit offset of `BL`, `S:I1:I2:imm10:imm11:0`, where
/// `I1 = NOT(J1 XOR S)` and `I2 = NOT(J2 XOR S)`.
pub open spec fn bl_field(bytes: Word) -> u32 {
    let native_l = le_u16([bytes[0], bytes[1]]);
    let native_r = le_u16([bytes[2], bytes[3]]);
    let imm10 = (native_l & 0x03FF) as u32;
    let s = ((native_l & 0x0400) >> 10u16) as u32;
    let imm11 = (native_r & 0x07FF) as u32;
    let j1 = ((native_r & 0x2000) >> 13u16) as u32;
    let j2 = ((native_r & 0x0800) >> 11u16) as u32;
    let i1 = !(j1 ^ s) & 1u32;
    let i2 = !(j2 ^ s) & 1u32;
    (imm11 << 1u32) | (imm10 << 12u32) | (i2 << 22u32) | (i1 << 23u32) | (s << 24u32)
}

/// The offset of `BL`: its field sign extended from bit 24, plus four.
pub open spec fn bl_offset(bytes: Word) -> int {
    let u = bl_field(bytes);
    (if u & 0x0100_0000u32 != 0 { (0xFE000000u32 | u) as i32 } else { u as i32 }) as int + 4
}

/// The special register that an `MRS` or `MSR` encoding names by its
/// `SYSm` byte; `None` for the numbers that name none.
pub open spec fn spec_special_register(byte: u8) -> Option<SpecialRegister> {
    match byte {
        0 => Some(SpecialRegister::APSR),
        1 => Some(SpecialRegister::IAPSR),
        2 => Some(SpecialRegister::EAPSR),
        3 => Some(SpecialRegister::XPSR),
        5 => Some(SpecialRegister::IPSR),
        6 => Some(SpecialRegister::EPSR),
        7 => Some(SpecialRegister::IEPSR),
        8 => Some(SpecialRegister::MSP),
        9 => Some(SpecialRegister::PSP),
        16 => Some(SpecialRegister::PRIMASK),
        20 => Some(SpecialRegister::CONTROL),
        _ => None,
    }
}

/// A register pair in bits 2 to 0 and 5 to 3, the first written.
pub open spec fn spec_reg_pair(hw: HalfWord) -> Operands {
    Operands::RegisterPair(DestRegister(f_rd(hw)), Register(f_rn(hw)))
}

/// A register pair in bits 2 to 0 and 5 to 3, both read.
pub open spec fn spec_pure_reg_pair(hw: HalfWord) -> Operands {
    Operands::PureRegisterPair(Register(f_rd(hw)), Register(f_rn(hw)))
}

/// A register pair and a three bit immediate.
pub open spec fn spec_reg_pair_imm3(hw: HalfWord) -> Operands {
    Operands::RegPairImm3(DestRegister(f_rd(hw)), SrcRegister(f_rn(hw)), BitField(f_imm3(hw)))
}

/// A register in bits 10 to 8 and an eight bit immediate.
pub open spec fn spec_dest_imm8(hw: HalfWord) -> Operands {
    Operands::DestImm8(DestRegister(f_rhi(hw)), BitField(hw[0] as u32))
}

/// Three low registers.
pub open spec fn spec_reg_triplet(hw: HalfWord) -> Operands {
    Operands::RegisterTriplet(DestRegister(f_rd(hw)), SrcRegister(f_rn(hw)), Register(f_rm(hw)))
}

/// The operands of each 16 bit instruction; `None` for those without.
pub open spec fn spec_operands_16(code: B16, hw: HalfWord) -> Option<Operands> {
    match code {
        B16::ADCS | B16::ANDS | B16::ASRS_REG | B16::BIT_CLEAR_REGISTER | B16::XOR_REG
        | B16::LSL_REGS | B16::LSR_REGS | B16::MUL | B16::ORR | B16::REV | B16::REV_16
        | B16::REVSH | B16::ROR | B16::RSB | B16::SBC | B16::SXTB | B16::SXTH | B16::UXTB
        | B16::UXTH => Some(spec_reg_pair(hw)),
        B16::ADD_Imm3 | B16::SUB_Imm3 => Some(spec_reg_pair_imm3(hw)),
        B16::ADD_Imm8 | B16::MOV_Imm8 | B16::SUB_Imm8 => Some(spec_dest_imm8(hw)),
        B16::ADDS_REG | B16::SUB_REG => Some(spec_reg_triplet(hw)),
        B16::ADDS_REG_T2 => Some(
            Operands::RegisterPair(DestRegister(f_rdn4(hw)), Register(f_rm4(hw))),
        ),
        B16::ADD_REG_SP_IMM8 => Some(
            Operands::ADD_REG_SP_IMM8(DestRegister(f_rhi(hw)), BitField((hw[0] as u32) << 2u32)),
        ),
        B16::INCR_SP_BY_IMM7 => Some(
            Operands::INCR_SP_BY_IMM7(BitField(((hw[0] & 0x7F) as u32) << 2u32)),
        ),
        B16::INCR_SP_BY_REG => Some(Operands::INCR_SP_BY_REG(Register(f_rm4(hw)))),
        B16::ADR => Some(Operands::ADR(DestRegister(f_rhi(hw)), BitField((hw[0] as u32) << 2u32))),
        B16::ASRS_Imm5 => Some(
            Operands::ASRS_Imm5(DestRegister(f_rd(hw)), SrcRegister(f_rn(hw)), BitField(f_imm5(hw))),
        ),
        B16::BEQ | B16::BNEQ | B16::B_CARRY_IS_SET | B16::B_CARRY_IS_CLEAR | B16::B_IF_NEGATIVE
        | B16::B_IF_POSITIVE | B16::B_IF_OVERFLOW | B16::B_IF_NO_OVERFLOW
        | B16::B_UNSIGNED_HIGHER | B16::B_UNSIGNED_LOWER_OR_SAME | B16::B_GTE | B16::B_LTE
        | B16::B_GT | B16::B_LT => Some(Operands::COND_BRANCH(cond_branch_offset(hw) as i32)),
        B16::B_ALWAYS => Some(Operands::B_ALWAYS(uncond_branch_offset(hw) as i32)),
        B16::BREAKPOINT => Some(Operands::BREAKPOINT(BitField(hw[0] as u32))),
        B16::BR_LNK_EXCHANGE => Some(Operands::BR_LNK_EXCHANGE(Register((hw[0] & 0x78) >> 3u8))),
        B16::BR_EXCHANGE => Some(Operands::BR_EXCHANGE(Register((hw[0] & 0x78) >> 3u8))),
        B16::CMP_NEG_REG | B16::TST | B16::CMP_REG_T1 => Some(spec_pure_reg_pair(hw)),
        B16::CMP_Imm8 => Some(Operands::CMP_Imm8(Register(f_rhi(hw)), BitField(hw[0] as u32))),
        B16::CMP_REG_T2 => Some(Operands::PureRegisterPair(Register(f_rd(hw)), Register(f_rm4(hw)))),
        B16::CPS => Some(Operands::EnableInterupt(hw[0] & 0x10 != 0)),
        B16::LDM | B16::STM => Some(Operands::LoadableList(Register(f_rhi(hw)), hw[0] as u16)),
        B16::LDR_Imm5 => Some(
            Operands::LDR_Imm5(DestRegister(f_rd(hw)), SrcRegister(f_rn(hw)), BitField((f_imm5(hw) * 4) as u32)),
        ),
        B16::LDRB_Imm5 => Some(
            Operands::LDR_Imm5(DestRegister(f_rd(hw)), SrcRegister(f_rn(hw)), BitField(f_imm5(hw))),
        ),
        B16::LDRH_Imm5 => Some(
            Operands::LDR_Imm5(DestRegister(f_rd(hw)), SrcRegister(f_rn(hw)), BitField((f_imm5(hw) * 2) as u32)),
        ),
        B16::LDR_SP_Imm8 | B16::LDR_PC_Imm8 => Some(
            Operands::LDR_Imm8(
                DestRegister(f_rhi(hw)),
                SrcRegister(if hw[1] & 0xF8 == 0x98 { STACK_POINTER } else { PROGRAM_COUNTER }),
                BitField(((hw[0] as u32) * 4) as u32),
            ),
        ),
        B16::LDR_REGS | B16::LDRB_REGS | B16::LDRH_REGS | B16::LDRSB_REGS | B16::LDRSH_REGS => Some(
            Operands::LDR_REG(DestRegister(f_rd(hw)), SrcRegister(f_rn(hw)), Register(f_rm(hw))),
        ),
        B16::LSL_Imm5 | B16::LSR_Imm5 => Some(
            Operands::LS_Imm5(DestRegister(f_rd(hw)), SrcRegister(f_rn(hw)), BitField(f_imm5(hw))),
        ),
        B16::MOV_REGS_T1 => Some(Operands::MOV_REG(DestRegister(f_rdn4(hw)), SrcRegister(f_rm4(hw)))),
        B16::MOV_REGS_T2 | B16::MVN => Some(
            Operands::MOV_REG(DestRegister(f_rd(hw)), SrcRegister(f_rn(hw))),
        ),
        B16::POP => Some(Operands::RegisterList((hw[0] as u16) | (((hw[1] & 1) as u16) << 15u16))),
        B16::PUSH => Some(Operands::RegisterList((hw[0] as u16) | (((hw[1] & 1) as u16) << 14u16))),
        B16::STR_Imm5 => Some(
            Operands::STR_Imm5(SrcRegister(f_rd(hw)), Register(f_rn(hw)), BitField(f_imm5(hw) << 2u32)),
        ),
        B16::STRB_Imm5 => Some(
            Operands::STR_Imm5(SrcRegister(f_rd(hw)), Register(f_rn(hw)), BitField(f_imm5(hw))),
        ),
        B16::STRH_Imm5 => Some(
            Operands::STR_Imm5(SrcRegister(f_rd(hw)), Register(f_rn(hw)), BitField(f_imm5(hw) << 1u32)),
        ),
        B16::STR_Imm8 => Some(
            Operands::STR_Imm8(SrcRegister(f_rhi(hw)), BitField((hw[0] as u32) << 2u32)),
        ),
        B16::STR_REG | B16::STRB_REG | B16::STRH_REG => Some(
            Operands::STR_REG(SrcRegister(f_rd(hw)), Register(f_rn(hw)), Register(f_rm(hw))),
        ),
        B16::SUB_SP_Imm7 => Some(Operands::SP_SUB(BitField(((hw[0] & 0x7F) as u32) << 2u32))),
        B16::SVC | B16::UNDEFINED => Some(Operands::Byte(BitField(hw[0] as u32))),
        B16::NOP | B16::SEV | B16::WFE | B16::WFI | B16::YIELD => None,
    }
}

/// Whether `get_operands_32b` can read the operands of `code` from
/// `bytes`: the special register of `MRS` and `MSR` must be one it knows.
pub open spec fn operands_32_readable(code: B32, bytes: Word) -> bool {
    (code == B32::MSR || code == B32::MRS) ==> spec_special_register(bytes[2]) is Some
}

/// The operands of each 32 bit instruction.
pub open spec fn spec_operands_32(code: B32, bytes: Word) -> Operands {
    match code {
        B32::BR_AND_LNK => Operands::BR_LNK(bl_offset(bytes) as i32),
        B32::MRS => Operands::MRS(
            DestRegister(bytes[3] & 0x0F),
            spec_special_register(bytes[2])->0,
        ),
        B32::MSR => Operands::MSR(spec_special_register(bytes[2])->0, SrcRegister(bytes[0] & 0x0F)),
        B32::DSB | B32::ISB | B32::DMB => Operands::Nibble(BitField((bytes[2] & 0x0F) as u32)),
        B32::UNDEFINED => Operands::HalfWord(
            BitField(
                ((((bytes[0] & 0x0F) as u16) << 12u16) | (le_u16([bytes[2], bytes[3]]) & 0x0FFF))
                    as u32,
            ),
        ),
    }
}

/// The operands of the 16 bit instruction `code` encoded in `hw`.
pub fn get_operands(code: &Opcode, hw: HalfWord) -> (r: Option<Operands>)
    requires
        *code is _16Bit,
    ensures
        r == spec_operands_16(code->_16Bit_0, hw),
{
    proof {
        lemma_ones_values();
        lemma_low_field(hw[0], f_imm5(hw));
    }
    match code {
        Opcode::_16Bit(opcode) => {
            match opcode {
                B16::ADCS => Some(get_def_reg_pair_as_operands(hw)),
                B16::ADD_Imm3 => Some(get_def_reg_pair_with_imm3(hw)),
                B16::ADD_Imm8 => Some(get_dest_and_imm8(hw)),
                B16::ADDS_REG => Some(get_9b_register_triplet(hw)),
                B16::ADDS_REG_T2 => Some(get_add_reg_t2_operands(hw)),
                B16::ADD_REG_SP_IMM8 => Some(get_add_reg_sp_imm8_operands(hw)),
                B16::INCR_SP_BY_IMM7 => Some(get_add_reg_sp_imm7_operands(hw)),
                B16::INCR_SP_BY_REG => Some(get_incr_sp_by_reg_operands(hw)),
                B16::ADR => Some(get_adr_operands(hw)),
                B16::ANDS => Some(get_def_reg_pair_as_operands(hw)),
                B16::ASRS_Imm5 => Some(get_asr_imm5_operands(hw)),
                B16::ASRS_REG => Some(get_def_reg_pair_as_operands(hw)),
                B16::BEQ => Some(get_cond_branch_operands(hw)),
                B16::BNEQ => Some(get_cond_branch_operands(hw)),
                B16::B_CARRY_IS_SET => Some(get_cond_branch_operands(hw)),
                B16::B_CARRY_IS_CLEAR => Some(get_cond_branch_operands(hw)),
                B16::B_IF_NEGATIVE => Some(get_cond_branch_operands(hw)),
                B16::B_IF_POSITIVE => Some(get_cond_branch_operands(hw)),
                B16::B_IF_OVERFLOW => Some(get_cond_branch_operands(hw)),
                B16::B_IF_NO_OVERFLOW => Some(get_cond_branch_operands(hw)),
                B16::B_UNSIGNED_HIGHER => Some(get_cond_branch_operands(hw)),
                B16::B_UNSIGNED_LOWER_OR_SAME => Some(get_cond_branch_operands(hw)),
                B16::B_GTE => Some(get_cond_branch_operands(hw)),
                B16::B_LTE => Some(get_cond_branch_operands(hw)),
                B16::B_GT => Some(get_cond_branch_operands(hw)),
                B16::B_LT => Some(get_cond_branch_operands(hw)),
                B16::B_ALWAYS => Some(get_uncond_branch_operands(hw)),
                B16::BIT_CLEAR_REGISTER => Some(get_def_reg_pair_as_operands(hw)),
                B16::BREAKPOINT => Some(get_breakpoint_operands(hw)),
                B16::BR_LNK_EXCHANGE => Some(get_br_lnk_exchange_operands(hw)),
                B16::BR_EXCHANGE => Some(get_br_exchange_operands(hw)),
                B16::CMP_NEG_REG => Some(get_pure_reg_pair(hw)),
                B16::CMP_Imm8 => Some(get_compare_imm8_operands(hw)),
                B16::CMP_REG_T1 => Some(get_compare_reg_operands::<3>(hw)),
                B16::CMP_REG_T2 => Some(get_compare_reg_operands::<4>(hw)),
                B16::CPS => Some(get_cps_operands(hw)),
                B16::XOR_REG => Some(get_def_reg_pair_as_operands(hw)),
                B16::LDM => Some(get_load_list_operands(hw)),
                B16::LDR_Imm5 => Some(get_ldr_imm5_operands(hw, 4)),
                B16::LDR_SP_Imm8 => Some(get_ldr_imm8_operands(hw)),
                B16::LDR_PC_Imm8 => Some(get_ldr_imm8_operands(hw)),
                B16::LDR_REGS => Some(get_ldr_reg_operands(hw)),
                B16::LDRB_Imm5 => Some(get_ldr_imm5_operands(hw, 1)),
                B16::LDRB_REGS => Some(get_ldr_reg_operands(hw)),
                B16::LDRH_Imm5 => Some(get_ldr_imm5_operands(hw, 2)),
                B16::LDRH_REGS => Some(get_ldr_reg_operands(hw)),
                B16::LDRSB_REGS => Some(get_ldr_reg_operands(hw)),
                B16::LDRSH_REGS => Some(get_ldr_reg_operands(hw)),
                B16::LSL_Imm5 => Some(get_ls_imm5_operands(hw)),
                B16::LSL_REGS => Some(get_def_reg_pair_as_operands(hw)),
                B16::LSR_Imm5 => Some(get_ls_imm5_operands(hw)),
                B16::LSR_REGS => Some(get_def_reg_pair_as_operands(hw)),
                B16::MOV_Imm8 => Some(get_dest_and_imm8(hw)),
                B16::MOV_REGS_T1 => Some(get_mov_reg_operands::<4>(hw)),
                B16::MOV_REGS_T2 => Some(get_mov_reg_operands::<3>(hw)),
                B16::MUL => Some(get_def_reg_pair_as_operands(hw)),
                B16::MVN => Some(get_mov_reg_operands::<3>(hw)),
                B16::NOP => None,
                B16::POP => Some(get_pop_operands(hw)),
                B16::PUSH => Some(get_push_operands(hw)),
                B16::ORR => Some(get_def_reg_pair_as_operands(hw)),
                B16::REV => Some(get_def_reg_pair_as_operands(hw)),
                B16::REV_16 => Some(get_def_reg_pair_as_operands(hw)),
                B16::REVSH => Some(get_def_reg_pair_as_operands(hw)),
                B16::ROR => Some(get_def_reg_pair_as_operands(hw)),
                B16::RSB => Some(get_def_reg_pair_as_operands(hw)),
                B16::SBC => Some(get_def_reg_pair_as_operands(hw)),
                B16::SEV => None,
                B16::STM => Some(get_load_list_operands(hw)),
                B16::STR_Imm5 => Some(get_str_imm5_operands(hw, 2)),
                B16::STR_Imm8 => Some(get_str_imm8_operands(hw, 2)),
                B16::STR_REG => Some(get_str_reg_operands(hw)),
                B16::STRB_Imm5 => Some(get_str_imm5_operands(hw, 0)),
                B16::STRB_REG => Some(get_str_reg_operands(hw)),
                B16::STRH_Imm5 => Some(get_str_imm5_operands(hw, 1)),
                B16::STRH_REG => Some(get_str_reg_operands(hw)),
                B16::SUB_Imm3 => Some(get_def_reg_pair_with_imm3(hw)),
                B16::SUB_Imm8 => Some(get_dest_and_imm8(hw)),
                B16::SUB_REG => Some(get_9b_register_triplet(hw)),
                B16::SUB_SP_Imm7 => Some(get_sub_sp_operands(hw)),
                B16::SVC => Some(get_low_byte(hw)),
                B16::SXTB => Some(get_def_reg_pair_as_operands(hw)),
                B16::SXTH => Some(get_def_reg_pair_as_operands(hw)),
                B16::TST => Some(get_pure_reg_pair(hw)),
                B16::UNDEFINED => Some(get_low_byte(hw)),
                B16::UXTB => Some(get_def_reg_pair_as_operands(hw)),
                B16::UXTH => Some(get_def_reg_pair_as_operands(hw)),
                B16::WFE => None,
                B16::WFI => None,
                B16::YIELD => None,
            }
        },
        Opcode::_32Bit(_) => {
            proof {
                assert(false);
            }
            None
        },
    }
}

/// The operands of the 32 bit instruction `code` encoded in `bytes`.
pub fn get_operands_32b(code: &Opcode, bytes: Word) -> (r: Option<Operands>)
    requires
        *code is _32Bit,
        operands_32_readable(code->_32Bit_0, bytes),
    ensures
        r == Some(spec_operands_32(code->_32Bit_0, bytes)),
{
    match code {
        Opcode::_16Bit(_) => {
            proof {
                assert(false);
            }
            None
        },
        Opcode::_32Bit(instruction) => {
            match instruction {
                B32::BR_AND_LNK => Some(get_branch_and_lnk_operands(bytes)),
                B32::MRS => Some(get_mrs_operands(bytes)),
                B32::MSR => Some(get_msr_operands(bytes)),
                B32::DSB => Some(get_barrier_option(bytes)),
                B32::ISB => Some(get_barrier_option(bytes)),
                B32::DMB => Some(get_barrier_option(bytes)),
                B32::UNDEFINED => Some(get_undefined_32b(bytes)),
            }
        },
    }
}

proof fn lemma_low_field(b: u8, x: u32)
    by (bit_vector)
    ensures
        (((b as u32) >> 3u32) & 7u32) as u8 == (b & 0x38) >> 3u8,
        x << 0u32 == x,
{
}

fn get_def_reg_pair(hw: HalfWord) -> (r: (DestRegister, Register))
    ensures
        r == (DestRegister(f_rd(hw)), Register(f_rn(hw))),
{
    let (dest, other) = get_def_reg_pair_u8(hw);
    (DestRegister(dest), Register(other))
}

fn get_def_reg_pair_as_operands(hw: HalfWord) -> (r: Operands)
    ensures
        r == spec_reg_pair(hw),
{
    let (dest, other) = get_def_reg_pair(hw);
    Operands::RegisterPair(dest, other)
}

fn get_pure_reg_pair(hw: HalfWord) -> (r: Operands)
    ensures
        r == spec_pure_reg_pair(hw),
{
    let (dest, other) = get_def_reg_pair_u8(hw);
    Operands::PureRegisterPair(Register(dest), Register(other))
}

fn get_def_reg_pair_u8(hw: HalfWord) -> (r: (u8, u8))
    ensures
        r == (f_rd(hw), f_rn(hw)),
{
    let dest: u8 = hw[0] & 0x07;
    let other: u8 = (hw[0] & 0x38) >> 3;
    (dest, other)
}

fn get_def_reg_pair_with_imm3(hw: HalfWord) -> (r: Operands)
    ensures
        r == spec_reg_pair_imm3(hw),
{
    let (dest, other) = get_def_reg_pair(hw);
    let native: u16 = from_arm_bytes_16b(hw);
    let imm3: Literal<3> = get_bitfield::<3>(native as u32, 6);
    proof {
        lemma_ones_values();
    }
    Operands::RegPairImm3(dest, SrcRegister(other.0), imm3)
}

fn get_dest_and_imm8(hw: HalfWord) -> (r: Operands)
    ensures
        r == spec_dest_imm8(hw),
{
    let dest: u8 = hw[1] & 0x07;
    let imm8: Literal<8> = BitField(hw[0] as u32);
    Operands::DestImm8(DestRegister(dest), imm8)
}

fn get_9b_register_triplet_u8(hw: HalfWord) -> (r: (u8, u8, u8))
    ensures
        r == (f_rd(hw), f_rn(hw), f_rm(hw)),
{
    let dest = hw[0] & 0x07;
    let src = (hw[0] & 0x38) >> 3;
    let native = from_arm_bytes_16b(hw);
    let second_arg = ((native & 0x01C0) >> 6) as u8;
    (dest, src, second_arg)
}

fn get_9b_register_triplet(hw: HalfWord) -> (r: Operands)
    ensures
        r == spec_reg_triplet(hw),
{
    let (dest, src, second_arg) = get_9b_register_triplet_u8(hw);
    Operands::RegisterTriplet(DestRegister(dest), SrcRegister(src), Register(second_arg))
}

fn get_add_reg_t2_operands(hw: HalfWord) -> (r: Operands)
    ensures
        r == Operands::RegisterPair(DestRegister(f_rdn4(hw)), Register(f_rm4(hw))),
{
    let opt_dest_bit = (hw[0] & 0x80) >> 4;
    let dest = DestRegister((hw[0] & 0x07) | opt_dest_bit);
    let r = get_bitfield::<4>(hw[0] as u32, 3);
    proof {
        lemma_ones_values();
    }
    Operands::RegisterPair(dest, Register(r.0 as u8))
}

fn get_add_reg_sp_imm8_operands(hw: HalfWord) -> (r: Operands)
    ensures
        r == Operands::ADD_REG_SP_IMM8(DestRegister(f_rhi(hw)), BitField((hw[0] as u32) << 2u32)),
{
    let dest: u8 = hw[1] & 0x07;
    Operands::ADD_REG_SP_IMM8(DestRegister(dest), BitField((hw[0] as u32) << 2))
}

fn get_add_reg_sp_imm7_operands(hw: HalfWord) -> (r: Operands)
    ensures
        r == Operands::INCR_SP_BY_IMM7(BitField(((hw[0] & 0x7F) as u32) << 2u32)),
{
    let v = hw[0] & 0x7F;
    Operands::INCR_SP_BY_IMM7(BitField((v as u32) << 2))
}

fn get_incr_sp_by_reg_operands(hw: HalfWord) -> (r: Operands)
    ensures
        r == Operands::INCR_SP_BY_REG(Register(f_rm4(hw))),
{
    let dest = get_bitfield::<4>(hw[0] as u32, 3);
    proof {
        lemma_ones_values();
    }
    Operands::INCR_SP_BY_REG(Register(dest.0 as u8))
}

fn get_adr_operands(hw: HalfWord) -> (r: Operands)
    ensures
        r == Operands::ADR(DestRegister(f_rhi(hw)), BitField((hw[0] as u32) << 2u32)),
{
    let dest: u8 = hw[1] & 0x07;
    let literal = (hw[0] as u32) << 2;
    Operands::ADR(DestRegister(dest), BitField(literal))
}

fn get_asr_imm5_operands(hw: HalfWord) -> (r: Operands)
    ensures
        r == Operands::ASRS_Imm5(DestRegister(f_rd(hw)), SrcRegister(f_rn(hw)), BitField(f_imm5(hw))),
{
    let (dest, other) = get_def_reg_pair(hw);
    let native: u16 = from_arm_bytes_16b(hw);
    let literal = get_bitfield::<5>(native as u32, 6);
    proof {
        lemma_ones_values();
    }
    Operands::ASRS_Imm5(dest, SrcRegister(other.0), literal)
}

proof fn lemma_branch_offsets(b: u8, l: u16)
    by (bit_vector)
    ensures
        (if ((b as u32) << 1u32) & (1u32 << 8u32) != 0 {
            ((b as u32) << 1u32) | !(u32::MAX >> 23u32)
        } else {
            (b as u32) << 1u32
        }) as i32 == (b as i8) as i32 * 2,
        (if (((l & 0x07FF) as u32) << 1u32) & (1u32 << 11u32) != 0 {
            (((l & 0x07FF) as u32) << 1u32) | !(u32::MAX >> 20u32)
        } else {
            ((l & 0x07FF) as u32) << 1u32
        }) as i32 == (if (l & 0x07FF) >= 1024u16 {
            ((l & 0x07FF) as i32 - 2048) as i32
        } else {
            (l & 0x07FF) as i32
        }) * 2,
{
}

fn get_cond_branch_operands(hw: HalfWord) -> (r: Operands)
    ensures
        r == Operands::COND_BRANCH(cond_branch_offset(hw) as i32),
{
    let shifted: Literal<9> = BitField((hw[0] as u32) << 1);
    proof {
        lemma_branch_offsets(hw[0], 0);
    }
    let extended = sign_extend(shifted) + 4;
    Operands::COND_BRANCH(extended)
}

fn get_uncond_branch_operands(hw: HalfWord) -> (r: Operands)
    ensures
        r == Operands::B_ALWAYS(uncond_branch_offset(hw) as i32),
{
    let native: u16 = from_arm_bytes_16b(hw);
    let label: Literal<11> = BitField((native & 0x07FF) as u32);
    let adjusted: Literal<12> = BitField(label.0 << 1);
    proof {
        lemma_branch_offsets(0, native);
    }
    let literal: i32 = sign_extend(adjusted) + 4;
    Operands::B_ALWAYS(literal)
}

fn get_breakpoint_operands(hw: HalfWord) -> (r: Operands)
    ensures
        r == Operands::BREAKPOINT(BitField(hw[0] as u32)),
{
    let imm8: Literal<8> = BitField::from_byte(hw[0]);
    Operands::BREAKPOINT(imm8)
}

proof fn lemma_bl_field(imm10: u32, imm11: u32, s: u32, i1: u32, i2: u32)
    by (bit_vector)
    requires
        imm10 < 1024,
        imm11 < 2048,
        s <= 1,
        i1 <= 1,
        i2 <= 1,
    ensures
        ({
            let u = (imm11 << 1u32) | (imm10 << 12u32) | (i2 << 22u32) | (i1 << 23u32) | (s
                << 24u32);
            &&& (s > 0) == (u & 0x0100_0000u32 != 0)
            &&& (0xFE000000u32 | u) as i32 >= -0x0200_0000i32
            &&& (0xFE000000u32 | u) as i32 <= 0i32
            &&& (u as i32) <= 0x01FF_FFFFi32
            &&& (u as i32) >= 0i32
        }),
{
}

proof fn lemma_bl_parts(nl: u16, nr: u16)
    by (bit_vector)
    ensures
        ((nl & 0x03FF) as u32) < 1024u32,
        ((nr & 0x07FF) as u32) < 2048u32,
        (((nl & 0x0400) >> 10u16) as u32) <= 1u32,
        (!((((nr & 0x2000) >> 13u16) as u32) ^ (((nl & 0x0400) >> 10u16) as u32)) & 1u32) <= 1u32,
        (!((((nr & 0x0800) >> 11u16) as u32) ^ (((nl & 0x0400) >> 10u16) as u32)) & 1u32) <= 1u32,
{
}

fn get_branch_and_lnk_operands(bytes: Word) -> (r: Operands)
    ensures
        r == Operands::BR_LNK(bl_offset(bytes) as i32),
{
    let left_hw: [u8; 2] = [bytes[0], bytes[1]];
    let native_l: u16 = from_arm_bytes_16b(left_hw);
    let right_hw: [u8; 2] = [bytes[2], bytes[3]];
    let native_r: u16 = from_arm_bytes_16b(right_hw);
    let imm10: u32 = (native_l & 0x03FF) as u32;
    let sign_bit: u32 = ((native_l & 0x0400) >> 10) as u32;
    let imm11: u32 = (native_r & 0x07FF) as u32;
    let j1 = ((native_r & 0x2000) >> 13) as u32;
    let j2 = ((native_r & 0x0800) >> 11) as u32;
    let i1: u32 = !(j1 ^ sign_bit) & 0x1;
    let i2: u32 = !(j2 ^ sign_bit) & 0x1;
    proof {
        lemma_bl_parts(native_l, native_r);
        lemma_bl_field(imm10, imm11, sign_bit, i1, i2);
    }
    let u_total: u32 = (imm11 << 1) | (imm10 << 12) | (i2 << 22) | (i1 << 23) | (sign_bit << 24);
    let sign_extended: u32 = if sign_bit > 0 {
        0xFE000000u32 | u_total
    } else {
        u_total
    };
    let result = sign_extended as i32 + 4i32;
    Operands::BR_LNK(result)
}

fn get_br_lnk_exchange_operands(hw: HalfWord) -> (r: Operands)
    ensures
        r == Operands::BR_LNK_EXCHANGE(Register((hw[0] & 0x78) >> 3u8)),
{
    let register = Register((hw[0] & 0x78) >> 3);
    Operands::BR_LNK_EXCHANGE(register)
}

fn get_br_exchange_operands(hw: HalfWord) -> (r: Operands)
    ensures
        r == Operands::BR_EXCHANGE(Register((hw[0] & 0x78) >> 3u8)),
{
    let register = Register((hw[0] & 0x78) >> 3);
    Operands::BR_EXCHANGE(register)
}

fn get_compare_imm8_operands(hw: HalfWord) -> (r: Operands)
    ensures
        r == Operands::CMP_Imm8(Register(f_rhi(hw)), BitField(hw[0] as u32)),
{
    let (register, imm8) = offset_addressing_imm8(hw);
    Operands::CMP_Imm8(Register(register), imm8)
}

fn get_compare_reg_operands<const L: u32>(hw: HalfWord) -> (r: Operands)
    requires
        L == 3 || L == 4,
    ensures
        r == Operands::PureRegisterPair(
            Register(f_rd(hw)),
            Register((((hw[0] as u32) >> 3u32) & ones(L)) as u8),
        ),
{
    let first = Register(hw[0] & 0x07);
    let second = get_bitfield::<L>(hw[0] as u32, 3);
    Operands::PureRegisterPair(first, Register(second.0 as u8))
}

fn get_load_list_operands(hw: HalfWord) -> (r: Operands)
    ensures
        r == Operands::LoadableList(Register(f_rhi(hw)), hw[0] as u16),
{
    let list = hw[0] as u16;
    let reg = Register(hw[1] & 0x07);
    Operands::LoadableList(reg, list)
}

fn offset_addressing_imm5(hw: HalfWord) -> (r: (u8, u8, Literal<5>))
    ensures
        r.0 == f_rd(hw),
        r.1 == f_rn(hw),
        r.2.0 == f_imm5(hw),
{
    let (dest, base) = get_def_reg_pair_u8(hw);
    let native = from_arm_bytes_16b(hw);
    let imm5: Literal<5> = get_bitfield::<5>(native as u32, 6);
    proof {
        lemma_ones_values();
    }
    (dest, base, imm5)
}

fn offset_addressing_imm8(hw: HalfWord) -> (r: (u8, Literal<8>))
    ensures
        r.0 == f_rhi(hw),
        r.1.0 == hw[0] as u32,
{
    let dest = hw[1] & 0x07;
    let imm8: Literal<8> = BitField::from_byte(hw[0]);
    (dest, imm8)
}

fn offset_addressing_regs(hw: HalfWord) -> (r: (u8, Register, Register))
    ensures
        r == (f_rd(hw), Register(f_rn(hw)), Register(f_rm(hw))),
{
    let (flex, base, offset) = get_9b_register_triplet_u8(hw);
    (flex, Register(base), Register(offset))
}

fn get_dest_src_and_imm5(hw: HalfWord) -> (r: (DestRegister, SrcRegister, Literal<5>))
    ensures
        r.0 == DestRegister(f_rd(hw)),
        r.1 == SrcRegister(f_rn(hw)),
        r.2.0 == f_imm5(hw),
{
    let (dest, base, imm5) = offset_addressing_imm5(hw);
    (DestRegister(dest), SrcRegister(base), imm5)
}

proof fn lemma_imm5_bound(hw: HalfWord)
    ensures
        f_imm5(hw) <= 31,
{
    let n = le_u16(hw) as u32;
    assert((n >> 6u32) & 31u32 <= 31u32) by (bit_vector);
}

fn get_ldr_imm5_operands(hw: HalfWord, multiple: u8) -> (r: Operands)
    requires
        multiple <= 4,
    ensures
        r == Operands::LDR_Imm5(
            DestRegister(f_rd(hw)),
            SrcRegister(f_rn(hw)),
            BitField((f_imm5(hw) * multiple as u32) as u32),
        ),
{
    let (dest, base, imm5) = get_dest_src_and_imm5(hw);
    proof {
        lemma_imm5_bound(hw);
        assert(imm5.0 * (multiple as u32) <= 124) by (nonlinear_arith)
            requires
                imm5.0 <= 31,
                multiple <= 4,
        ;
    }
    let adjusted: Literal<5> = BitField(imm5.0 * multiple as u32);
    Operands::LDR_Imm5(dest, base, adjusted)
}

fn get_ldr_imm8_operands(hw: HalfWord) -> (r: Operands)
    ensures
        r == Operands::LDR_Imm8(
            DestRegister(f_rhi(hw)),
            SrcRegister(if hw[1] & 0xF8 == 0x98 { STACK_POINTER } else { PROGRAM_COUNTER }),
            BitField(((hw[0] as u32) * 4) as u32),
        ),
{
    let (dest, imm8) = offset_addressing_imm8(hw);
    let src = if hw[1] & 0xF8 == 0x98 {
        SrcRegister(STACK_POINTER)
    } else {
        SrcRegister(PROGRAM_COUNTER)
    };
    let adjusted: Literal<8> = BitField(imm8.0 * 4u32);
    Operands::LDR_Imm8(DestRegister(dest), src, adjusted)
}

fn get_ldr_reg_operands(hw: HalfWord) -> (r: Operands)
    ensures
        r == Operands::LDR_REG(DestRegister(f_rd(hw)), SrcRegister(f_rn(hw)), Register(f_rm(hw))),
{
    let (dest, base_reg, offset_reg) = offset_addressing_regs(hw);
    Operands::LDR_REG(DestRegister(dest), SrcRegister(base_reg.0), offset_reg)
}

fn get_ls_imm5_operands(hw: HalfWord) -> (r: Operands)
    ensures
        r == Operands::LS_Imm5(DestRegister(f_rd(hw)), SrcRegister(f_rn(hw)), BitField(f_imm5(hw))),
{
    let (dest, src, offset) = get_dest_src_and_imm5(hw);
    Operands::LS_Imm5(dest, src, offset)
}

fn get_mov_reg_operands<const L: u32>(hw: HalfWord) -> (r: Operands)
    requires
        L == 3 || L == 4,
    ensures
        r == Operands::MOV_REG(
            DestRegister(if L == 4 { f_rdn4(hw) } else { f_rd(hw) }),
            SrcRegister((((hw[0] as u32) >> 3u32) & ones(L)) as u8),
        ),
{
    let dest: DestRegister = if L == 4 {
        let d = (hw[0] & 0x07) | ((hw[0] & 0x80) >> 4);
        DestRegister(d)
    } else {
        DestRegister(hw[0] & 0x07)
    };
    let src = get_bitfield::<L>(hw[0] as u32, 3);
    Operands::MOV_REG(dest, SrcRegister(src.0 as u8))
}

fn get_pop_operands(hw: HalfWord) -> (r: Operands)
    ensures
        r == Operands::RegisterList((hw[0] as u16) | (((hw[1] & 1) as u16) << 15u16)),
{
    let pc_bit = (hw[1] & 0x01) as u16;
    let list = hw[0] as u16 | (pc_bit << 15);
    Operands::RegisterList(list)
}

fn get_push_operands(hw: HalfWord) -> (r: Operands)
    ensures
        r == Operands::RegisterList((hw[0] as u16) | (((hw[1] & 1) as u16) << 14u16)),
{
    let lr_bit = (hw[1] & 0x01) as u16;
    let list = hw[0] as u16 | (lr_bit << 14);
    Operands::RegisterList(list)
}

fn get_str_imm5_operands(hw: HalfWord, shift: u8) -> (r: Operands)
    requires
        shift <= 2,
    ensures
        r == Operands::STR_Imm5(SrcRegister(f_rd(hw)), Register(f_rn(hw)), BitField(f_imm5(hw) << shift as u32)),
{
    let (dest, base, imm5) = offset_addressing_imm5(hw);
    let adjusted: Literal<5> = BitField(imm5.0 << (shift as u32));
    Operands::STR_Imm5(SrcRegister(dest), Register(base), adjusted)
}

fn get_str_imm8_operands(hw: HalfWord, shift: u8) -> (r: Operands)
    requires
        shift <= 2,
    ensures
        r == Operands::STR_Imm8(SrcRegister(f_rhi(hw)), BitField((hw[0] as u32) << shift as u32)),
{
    let (src, offset) = offset_addressing_imm8(hw);
    let adjusted: Literal<8> = BitField(offset.0 << (shift as u32));
    Operands::STR_Imm8(SrcRegister(src), adjusted)
}

fn get_str_reg_operands(hw: HalfWord) -> (r: Operands)
    ensures
        r == Operands::STR_REG(SrcRegister(f_rd(hw)), Register(f_rn(hw)), Register(f_rm(hw))),
{
    let (src, base, offset) = offset_addressing_regs(hw);
    Operands::STR_REG(SrcRegister(src), base, offset)
}

fn get_sub_sp_operands(hw: HalfWord) -> (r: Operands)
    ensures
        r == Operands::SP_SUB(BitField(((hw[0] & 0x7F) as u32) << 2u32)),
{
    let literal: Literal<7> = BitField(((hw[0] & 0x7F) as u32) << 2);
    Operands::SP_SUB(literal)
}

fn get_low_byte(hw: HalfWord) -> (r: Operands)
    ensures
        r == Operands::Byte(BitField(hw[0] as u32)),
{
    Operands::Byte(BitField::from_byte(hw[0]))
}

fn get_cps_operands(hw: HalfWord) -> (r: Operands)
    ensures
        r == Operands::EnableInterupt(hw[0] & 0x10 != 0),
{
    let flat = (hw[0] & 0x10) != 0;
    Operands::EnableInterupt(flat)
}

fn get_msr_operands(bytes: Word) -> (r: Operands)
    requires
        spec_special_register(bytes[2]) is Some,
    ensures
        r == Operands::MSR(spec_special_register(bytes[2])->0, SrcRegister(bytes[0] & 0x0F)),
{
    Operands::MSR(get_special_register(bytes[2]), SrcRegister(bytes[0] & 0x0F))
}

fn get_mrs_operands(bytes: Word) -> (r: Operands)
    requires
        spec_special_register(bytes[2]) is Some,
    ensures
        r == Operands::MRS(DestRegister(bytes[3] & 0x0F), spec_special_register(bytes[2])->0),
{
    Operands::MRS(DestRegister(bytes[3] & 0x0F), get_special_register(bytes[2]))
}

fn get_barrier_option(bytes: Word) -> (r: Operands)
    ensures
        r == Operands::Nibble(BitField((bytes[2] & 0x0F) as u32)),
{
    Operands::Nibble(BitField((bytes[2] & 0x0F) as u32))
}

fn get_undefined_32b(bytes: Word) -> (r: Operands)
    ensures
        r == spec_operands_32(B32::UNDEFINED, bytes),
{
    let imm4: u16 = (bytes[0] & 0x0F) as u16;
    let later_u16 = from_arm_bytes_16b([bytes[2], bytes[3]]);
    let imm12: u16 = later_u16 & 0x0FFF;
    Operands::HalfWord(BitField(((imm4 << 12) | imm12) as u32))
}

fn get_special_register(byte: u8) -> (r: SpecialRegister)
    requires
        spec_special_register(byte) is Some,
    ensures
        r == spec_special_register(byte)->0,
{
    match byte {
        0 => SpecialRegister::APSR,
        1 => SpecialRegister::IAPSR,
        2 => SpecialRegister::EAPSR,
        3 => SpecialRegister::XPSR,
        5 => SpecialRegister::IPSR,
        6 => SpecialRegister::EPSR,
        7 => SpecialRegister::IEPSR,
        8 => SpecialRegister::MSP,
        9 => SpecialRegister::PSP,
        16 => SpecialRegister::PRIMASK,
        _ => SpecialRegister::CONTROL,
    }
}

// ---------------------------------------------------------------------
// Text of numbers and registers.
// ---------------------------------------------------------------------

/// `String::push` of std: appends `c` to `s`.
#[verifier::external_body]
pub(crate) fn push_char(s: &mut String, c: char)
    ensures
        final(s)@ == old(s)@.push(c),
{
    s.push(c);
}

/// The upper case hexadecimal digits.
pub open spec fn hex_digits() -> Seq<char> {
    seq!['0', '1', '2', '3', '4', '5', '6', '7', '8', '9', 'A', 'B', 'C', 'D', 'E', 'F']
}

/// The upper case hexadecimal digit of `d` (below 16).
pub open spec fn hex_digit(d: u32) -> char {
    hex_digits()[d as int]
}

/// `num` as `0x` and eight upper case hexadecimal digits.
pub open spec fn hex_text(num: u32) -> Seq<char> {
    seq!['0', 'x'] + Seq::new(8, |i: int| hex_digit((num >> ((28 - 4 * i) as u32)) & 0xFu32))
}

/// The decimal digits.
pub open spec fn dec_digits() -> Seq<char> {
    seq!['0', '1', '2', '3', '4', '5', '6', '7', '8', '9']
}

/// The decimal digit of `d` (below 10).
pub open spec fn dec_digit(d: nat) -> char {
    dec_digits()[d as int]
}

/// `n` in decimal, without leading zeros.
pub open spec fn dec_text(n: nat) -> Seq<char>
    decreases n,
{
    if n < 10 {
        seq![dec_digit(n)]
    } else {
        dec_text(n / 10).push(dec_digit(n % 10))
    }
}

/// The digits `d`, least significant first, as text, most significant first.
pub open spec fn msd_text(d: Seq<u32>) -> Seq<char> {
    Seq::new(d.len(), |k: int| dec_digit(d[d.len() - 1 - k] as nat))
}

proof fn lemma_hex_mask(num: u32, i: u32)
    by (bit_vector)
    requires
        i < 8,
    ensures
        (num & (0xF000_0000u32 >> ((4 * i) as u32))) >> ((28 - i * 4) as u32) == (num >> ((28 - 4
            * i) as u32)) & 0xFu32,
        (num & (0xF000_0000u32 >> ((4 * i) as u32))) >> ((28 - i * 4) as u32) < 16,
        (0xF000_0000u32 >> ((4 * i) as u32)) >> 4u32 == 0xF000_0000u32 >> ((4 * (i + 1)) as u32),
        0xF000_0000u32 >> 0u32 == 0xF000_0000u32,
{
}

/// Appends `num` as `0x` and eight upper case hexadecimal digits.
pub fn u32_to_hex(buffer: &mut String, num: u32)
    ensures
        final(buffer)@ == old(buffer)@ + hex_text(num),
{
    let table: [char; 16] = ['0', '1', '2', '3', '4', '5', '6', '7', '8', '9', 'A', 'B', 'C', 'D', 'E', 'F'];
    let ghost start = buffer@ + seq!['0', 'x'];
    proof {
        assert(table@ =~= hex_digits());
        lemma_hex_mask(num, 0);
    }
    buffer.append("0x");
    proof {
        reveal_strlit("0x");
        assert(buffer@ =~= start);
    }
    let mut mask: u32 = 0xF000_0000;
    let mut i: u32 = 0;
    while i < 8
        invariant
            i <= 8,
            mask == 0xF000_0000u32 >> ((4 * i) as u32),
            table@ == hex_digits(),
            buffer@ == start + Seq::new(i as nat, |k: int| hex_digit((num >> ((28 - 4 * k) as u32)) & 0xFu32)),
        decreases 8 - i,
    {
        proof {
            lemma_hex_mask(num, i);
        }
        let k: usize = ((num & mask) >> (28 - (i * 4))) as usize;
        proof {
            assert(table[k as int] == hex_digit(k as u32));
        }
        push_char(buffer, table[k]);
        proof {
            assert(buffer@ =~= start + Seq::new((i + 1) as nat, |k: int| hex_digit((num >> ((28 - 4 * k) as u32)) & 0xFu32)));
        }
        mask = mask >> 4;
        i = i + 1;
    }
    assert(buffer@ =~= old(buffer)@ + hex_text(num));
}

/// Appends `num` in decimal, without leading zeros.
pub fn u32_to_b10(buffer: &mut String, num: u32)
    ensures
        final(buffer)@ == old(buffer)@ + dec_text(num as nat),
{
    let dict: [char; 10] = ['0', '1', '2', '3', '4', '5', '6', '7', '8', '9'];
    proof {
        assert(dict@ =~= dec_digits());
    }
    let mut number: Vec<u32> = Vec::new();
    let mut n = num;
    while n >= 10
        invariant
            dec_text(num as nat) == dec_text(n as nat) + msd_text(number@),
            forall|k: int| 0 <= k < number@.len() ==> #[trigger] number@[k] < 10,
        decreases n,
    {
        proof {
            let d2 = number@.push(n % 10);
            assert(msd_text(d2) =~= seq![dec_digit((n % 10) as nat)] + msd_text(number@));
            assert(dec_text(n as nat) == dec_text((n / 10) as nat).push(dec_digit((n % 10) as nat)));
            assert(dec_text(n as nat) + msd_text(number@) =~= dec_text((n / 10) as nat) + msd_text(d2));
        }
        number.push(n % 10);
        n = n / 10;
    }
    proof {
        let d2 = number@.push(n);
        assert(msd_text(d2) =~= seq![dec_digit(n as nat)] + msd_text(number@));
    }
    number.push(n);
    let ghost before = buffer@;
    let mut x: usize = number.len();
    while x > 0
        invariant
            x <= number@.len(),
            dec_text(num as nat) == msd_text(number@),
            forall|k: int| 0 <= k < number@.len() ==> #[trigger] number@[k] < 10,
            dict@ == dec_digits(),
            buffer@ == before + msd_text(number@).take(number@.len() - x),
        decreases x,
    {
        x = x - 1;
        let d = number[x];
        proof {
            assert(dict[d as int] == dec_digit(d as nat));
        }
        push_char(buffer, dict[d as usize]);
        proof {
            assert(buffer@ =~= before + msd_text(number@).take(number@.len() - x));
        }
    }
    proof {
        assert(msd_text(number@).take(number@.len() as int) =~= msd_text(number@));
    }
}

/// The name of register `number` (0 to 15).
pub open spec fn register_name(number: u8) -> Seq<char> {
    if number <= 12 {
        seq!['r'] + dec_text(number as nat)
    } else if number == 13 {
        seq!['S', 'P']
    } else if number == 14 {
        seq!['L', 'R']
    } else {
        seq!['P', 'C']
    }
}

/// Appends the name of register `number` (0 to 15): `r0` to `r12`, `SP`,
/// `LR` or `PC`.
pub fn serialise_register(buffer: &mut String, number: u8)
    requires
        number <= 15,
    ensures
        final(buffer)@ == old(buffer)@ + register_name(number),
{
    if number <= 12 {
        push_char(buffer, 'r');
        u32_to_b10(buffer, number as u32);
        proof {
            assert(buffer@ =~= old(buffer)@ + register_name(number));
        }
    } else if number == 13 {
        buffer.append("SP");
        proof {
            reveal_strlit("SP");
            assert(buffer@ =~= old(buffer)@ + register_name(number));
        }
    } else if number == 14 {
        buffer.append("LR");
        proof {
            reveal_strlit("LR");
            assert(buffer@ =~= old(buffer)@ + register_name(number));
        }
    } else {
        buffer.append("PC");
        proof {
            reveal_strlit("PC");
            assert(buffer@ =~= old(buffer)@ + register_name(number));
        }
    }
}


// ---------------------------------------------------------------------
// Text of operands.
// ---------------------------------------------------------------------

/// The text of a branch offset: `.` for none, `. + n` forwards, `. - n`
/// backwards.
pub open spec fn branch_offset_text(offset: i32) -> Seq<char> {
    if offset == 0 {
        "."@
    } else if offset > 0 {
        ". + "@ + dec_text(offset as nat)
    } else {
        ". - "@ + dec_text((-offset) as nat)
    }
}

/// Appends the text of a branch offset.
pub fn serialise_branch_offset(buffer: &mut String, offset: i32)
    ensures
        final(buffer)@ == old(buffer)@ + branch_offset_text(offset),
{
    if offset == 0 {
        buffer.append(".");
    } else if offset > 0 {
        buffer.append(". + ");
        u32_to_b10(buffer, offset as u32);
        proof {
            assert(buffer@ =~= old(buffer)@ + branch_offset_text(offset));
        }
    } else {
        buffer.append(". - ");
        let magnitude: u32 = (0i64 - offset as i64) as u32;
        u32_to_b10(buffer, magnitude);
        proof {
            assert(buffer@ =~= old(buffer)@ + branch_offset_text(offset));
        }
    }
}

/// The names of the first `k` registers of `regs`, each followed by a comma.
pub open spec fn regs_prefix(regs: Seq<u8>, k: nat) -> Seq<char>
    decreases k,
{
    if k == 0 {
        Seq::empty()
    } else {
        regs_prefix(regs, (k - 1) as nat) + register_name(regs[k - 1]) + ","@
    }
}

/// A register list as text: the names between braces, split by commas.
pub open spec fn register_list_text(regs: Seq<u8>) -> Seq<char> {
    "{"@ + regs_prefix(regs, (regs.len() - 1) as nat) + register_name(regs[regs.len() - 1]) + "}"@
}

/// Appends a non empty register list as text.
pub fn serialise_register_list(buffer: &mut String, registers: Vec<u8>)
    requires
        registers.len() > 0,
        forall|k: int| 0 <= k < registers.len() ==> #[trigger] registers[k] <= 15,
    ensures
        final(buffer)@ == old(buffer)@ + register_list_text(registers@),
{
    let ghost start = old(buffer)@ + "{"@;
    buffer.append("{");
    let last = registers.len() - 1;
    let mut r: usize = 0;
    while r < last
        invariant
            r <= last,
            last == registers.len() - 1,
            forall|k: int| 0 <= k < registers.len() ==> #[trigger] registers[k] <= 15,
            buffer@ == start + regs_prefix(registers@, r as nat),
        decreases last - r,
    {
        serialise_register(buffer, registers[r]);
        buffer.append(",");
        proof {
            assert(buffer@ =~= start + regs_prefix(registers@, (r + 1) as nat));
        }
        r = r + 1;
    }
    serialise_register(buffer, registers[last]);
    buffer.append("}");
    proof {
        assert(buffer@ =~= old(buffer)@ + register_list_text(registers@));
    }
}

/// The name of a special register.
pub open spec fn special_register_name(reg: SpecialRegister) -> Seq<char> {
    match reg {
        SpecialRegister::APSR => "APSR"@,
        SpecialRegister::IAPSR => "IAPSR"@,
        SpecialRegister::EAPSR => "EAPSR"@,
        SpecialRegister::XPSR => "XPSR"@,
        SpecialRegister::IPSR => "IPSR"@,
        SpecialRegister::EPSR => "EPSR"@,
        SpecialRegister::IEPSR => "IEPSR"@,
        SpecialRegister::MSP => "MSP"@,
        SpecialRegister::PSP => "PSP"@,
        SpecialRegister::PRIMASK => "PRIMASK"@,
        SpecialRegister::CONTROL => "CONTROL"@,
    }
}

/// Appends the name of a special register.
pub fn serialise_special_register(buffer: &mut String, reg: &SpecialRegister)
    ensures
        final(buffer)@ == old(buffer)@ + special_register_name(*reg),
{
    match reg {
        SpecialRegister::APSR => buffer.append("APSR"),
        SpecialRegister::IAPSR => buffer.append("IAPSR"),
        SpecialRegister::EAPSR => buffer.append("EAPSR"),
        SpecialRegister::XPSR => buffer.append("XPSR"),
        SpecialRegister::IPSR => buffer.append("IPSR"),
        SpecialRegister::EPSR => buffer.append("EPSR"),
        SpecialRegister::IEPSR => buffer.append("IEPSR"),
        SpecialRegister::MSP => buffer.append("MSP"),
        SpecialRegister::PSP => buffer.append("PSP"),
        SpecialRegister::PRIMASK => buffer.append("PRIMASK"),
        SpecialRegister::CONTROL => buffer.append("CONTROL"),
    }
}

/// The word aligned address that a load at `address` with offset `offset`
/// reads from the literal pool.
pub open spec fn spec_hint_address(address: u32, offset: u32) -> u32 {
    ((address + 4 + offset) as u32) & !3u32
}

/// The address a PC relative load at `address` reads, with `offset`.
pub fn hint_address(address: u32, offset: u32) -> (r: u32)
    requires
        address + 4 + offset <= u32::MAX,
    ensures
        r == spec_hint_address(address, offset),
{
    (address + 4 + offset) & !0x3
}

/// Whether the operands can be written as text: register numbers name
/// registers, lists are not empty, and a load's hint address fits in 32
/// bits.
pub open spec fn operands_printable(ops: Operands, address: u32) -> bool {
    match ops {
        Operands::ADD_REG_SP_IMM8(r, imm) => r.0 <= 15,
        Operands::INCR_SP_BY_REG(r) => r.0 <= 15,
        Operands::ADR(r, imm) => r.0 <= 15,
        Operands::ASRS_Imm5(d, r, imm) => d.0 <= 15 && r.0 <= 15,
        Operands::BR_LNK_EXCHANGE(r) => r.0 <= 15,
        Operands::BR_EXCHANGE(r) => r.0 <= 15,
        Operands::CMP_Imm8(r, imm) => r.0 <= 15,
        Operands::LDR_Imm5(d, s, imm) => d.0 <= 15 && s.0 <= 15 && address + 4 + imm.0 <= u32::MAX,
        Operands::LDR_Imm8(d, s, imm) => d.0 <= 15 && s.0 <= 15 && address + 4 + imm.0 <= u32::MAX,
        Operands::LDR_REG(d, s, r) => d.0 <= 15 && s.0 <= 15 && r.0 <= 15,
        Operands::LS_Imm5(d, s, imm) => d.0 <= 15 && s.0 <= 15,
        Operands::MOV_REG(d, s) => d.0 <= 15 && s.0 <= 15,
        Operands::DestImm8(d, imm) => d.0 <= 15,
        Operands::LoadableList(base, list) => base.0 <= 15 && set_bits(list).len() > 0,
        Operands::RegisterPair(d, r) => d.0 <= 15 && r.0 <= 15,
        Operands::RegPairImm3(d, s, imm) => d.0 <= 15 && s.0 <= 15,
        Operands::RegisterTriplet(d, s, a) => d.0 <= 15 && s.0 <= 15 && a.0 <= 15,
        Operands::PureRegisterPair(a, b) => a.0 <= 15 && b.0 <= 15,
        Operands::RegisterList(list) => set_bits(list).len() > 0,
        Operands::STR_Imm5(s, base, imm) => s.0 <= 15 && base.0 <= 15,
        Operands::STR_Imm8(s, imm) => s.0 <= 15,
        Operands::STR_REG(s, base, o) => s.0 <= 15 && base.0 <= 15 && o.0 <= 15,
        Operands::MSR(meta, src) => src.0 <= 15,
        Operands::MRS(dest, meta) => dest.0 <= 15,
        _ => true,
    }
}

/// Two registers as text, split by a comma.
pub open spec fn pair_text(a: u8, b: u8) -> Seq<char> {
    register_name(a) + ", "@ + register_name(b)
}

/// Two registers and an immediate as text.
pub open spec fn pair_imm_text(a: u8, b: u8, imm: u32) -> Seq<char> {
    pair_text(a, b) + ", #"@ + dec_text(imm as nat)
}

/// A register and an immediate as text.
pub open spec fn reg_imm_text(a: u8, imm: u32) -> Seq<char> {
    register_name(a) + ", #"@ + dec_text(imm as nat)
}

/// A load from a base register with an immediate offset, with the address
/// it would read as a literal pool hint.
pub open spec fn load_imm_text(d: u8, s: u8, imm: u32, address: u32) -> Seq<char> {
    register_name(d) + ", ["@ + register_name(s) + ", #"@ + dec_text(imm as nat) + "]    //@"@
        + hex_text(spec_hint_address(address, imm))
}

/// The text of the operands `ops` of the instruction at `address`.
pub open spec fn operand_text(ops: Operands, address: u32) -> Seq<char> {
    match ops {
        Operands::ADD_REG_SP_IMM8(r, imm) => register_name(r.0) + ", SP, #"@ + dec_text(imm.0 as nat),
        Operands::INCR_SP_BY_IMM7(imm) => "SP, #"@ + dec_text(imm.0 as nat),
        Operands::INCR_SP_BY_REG(r) => "SP, "@ + register_name(r.0),
        Operands::ADR(r, imm) => reg_imm_text(r.0, imm.0),
        Operands::ASRS_Imm5(d, r, imm) => pair_imm_text(d.0, r.0, imm.0),
        Operands::COND_BRANCH(off) => branch_offset_text(off),
        Operands::B_ALWAYS(off) => branch_offset_text(off),
        Operands::BREAKPOINT(imm) => "#"@ + dec_text(imm.0 as nat),
        Operands::BR_LNK(off) => branch_offset_text(off),
        Operands::BR_LNK_EXCHANGE(r) => register_name(r.0),
        Operands::BR_EXCHANGE(r) => register_name(r.0),
        Operands::CMP_Imm8(r, imm) => reg_imm_text(r.0, imm.0),
        Operands::LDR_Imm5(d, s, imm) => load_imm_text(d.0, s.0, imm.0, address),
        Operands::LDR_Imm8(d, s, imm) => load_imm_text(d.0, s.0, imm.0, address),
        Operands::LDR_REG(d, s, r) => register_name(d.0) + ", ["@ + pair_text(s.0, r.0) + "]"@,
        Operands::LS_Imm5(d, s, imm) => pair_imm_text(d.0, s.0, imm.0),
        Operands::MOV_REG(d, s) => pair_text(d.0, s.0),
        Operands::DestImm8(d, imm) => reg_imm_text(d.0, imm.0),
        Operands::LoadableList(base, list) => register_name(base.0) + (if (1u16 << (base.0 as u16))
            & list > 0 {
            ","@
        } else {
            "!,"@
        }) + register_list_text(set_bits(list)),
        Operands::RegisterPair(d, r) => pair_text(d.0, r.0),
        Operands::RegPairImm3(d, s, imm) => pair_imm_text(d.0, s.0, imm.0),
        Operands::RegisterTriplet(d, s, a) => pair_text(d.0, s.0) + ", "@ + register_name(a.0),
        Operands::PureRegisterPair(a, b) => pair_text(a.0, b.0),
        Operands::RegisterList(list) => register_list_text(set_bits(list)),
        Operands::STR_Imm5(s, base, imm) => register_name(s.0) + ", ["@ + register_name(base.0) + ", #"@
            + dec_text(imm.0 as nat) + "]"@,
        Operands::STR_Imm8(s, imm) => register_name(s.0) + ", [SP, #"@ + dec_text(imm.0 as nat) + "]"@,
        Operands::STR_REG(s, base, o) => register_name(s.0) + ", ["@ + pair_text(base.0, o.0),
        Operands::SP_SUB(imm) => "SP, SP, #"@ + dec_text(imm.0 as nat),
        Operands::Byte(imm) => dec_text(imm.0 as nat),
        Operands::HalfWord(imm) => dec_text(imm.0 as nat),
        Operands::EnableInterupt(flag) => if flag {
            "CPSID i"@
        } else {
            "CPSIE i"@
        },
        Operands::MSR(meta, src) => special_register_name(meta) + ", "@ + register_name(src.0),
        Operands::MRS(dest, meta) => register_name(dest.0) + ", "@ + special_register_name(meta),
        Operands::Nibble(imm) => "#"@ + dec_text(imm.0 as nat),
    }
}

fn serialise_pair(buffer: &mut String, a: u8, b: u8)
    requires
        a <= 15,
        b <= 15,
    ensures
        final(buffer)@ == old(buffer)@ + pair_text(a, b),
{
    serialise_register(buffer, a);
    buffer.append(", ");
    serialise_register(buffer, b);
    proof {
        assert(buffer@ =~= old(buffer)@ + pair_text(a, b));
    }
}

fn serialise_pair_imm(buffer: &mut String, a: u8, b: u8, imm: u32)
    requires
        a <= 15,
        b <= 15,
    ensures
        final(buffer)@ == old(buffer)@ + pair_imm_text(a, b, imm),
{
    serialise_pair(buffer, a, b);
    buffer.append(", #");
    u32_to_b10(buffer, imm);
    proof {
        assert(buffer@ =~= old(buffer)@ + pair_imm_text(a, b, imm));
    }
}

fn serialise_reg_imm(buffer: &mut String, a: u8, imm: u32)
    requires
        a <= 15,
    ensures
        final(buffer)@ == old(buffer)@ + reg_imm_text(a, imm),
{
    serialise_register(buffer, a);
    buffer.append(", #");
    u32_to_b10(buffer, imm);
    proof {
        assert(buffer@ =~= old(buffer)@ + reg_imm_text(a, imm));
    }
}

fn serialise_load_imm(buffer: &mut String, d: u8, s: u8, imm: u32, address: u32)
    requires
        d <= 15,
        s <= 15,
        address + 4 + imm <= u32::MAX,
    ensures
        final(buffer)@ == old(buffer)@ + load_imm_text(d, s, imm, address),
{
    serialise_register(buffer, d);
    buffer.append(", [");
    serialise_register(buffer, s);
    buffer.append(", #");
    u32_to_b10(buffer, imm);
    buffer.append("]    //@");
    let hint = hint_address(address, imm);
    u32_to_hex(buffer, hint);
    proof {
        assert(buffer@ =~= old(buffer)@ + load_imm_text(d, s, imm, address));
    }
}

/// Appends the text of the operands of the instruction at `address`.
#[verifier::rlimit(40)]
pub fn serialise_operand(buffer: &mut String, operands: &Operands, address: u32)
    requires
        operands_printable(*operands, address),
    ensures
        final(buffer)@ == old(buffer)@ + operand_text(*operands, address),
{
    let ghost start = old(buffer)@;
    match operands {
        Operands::ADD_REG_SP_IMM8(r, imm8) => {
            serialise_register(buffer, r.0);
            buffer.append(", SP, #");
            u32_to_b10(buffer, imm8.0);
        },
        Operands::INCR_SP_BY_IMM7(imm7) => {
            buffer.append("SP, #");
            u32_to_b10(buffer, imm7.0);
        },
        Operands::INCR_SP_BY_REG(r) => {
            buffer.append("SP, ");
            serialise_register(buffer, r.0);
        },
        Operands::ADR(r, imm8) => serialise_reg_imm(buffer, r.0, imm8.0),
        Operands::ASRS_Imm5(d, r, imm5) => serialise_pair_imm(buffer, d.0, r.0, imm5.0),
        Operands::COND_BRANCH(off) => serialise_branch_offset(buffer, *off),
        Operands::B_ALWAYS(off) => serialise_branch_offset(buffer, *off),
        Operands::BREAKPOINT(imm8) => {
            buffer.append("#");
            u32_to_b10(buffer, imm8.0);
        },
        Operands::BR_LNK(off) => serialise_branch_offset(buffer, *off),
        Operands::BR_LNK_EXCHANGE(r) => serialise_register(buffer, r.0),
        Operands::BR_EXCHANGE(r) => serialise_register(buffer, r.0),
        Operands::CMP_Imm8(r, imm8) => serialise_reg_imm(buffer, r.0, imm8.0),
        Operands::LDR_Imm5(d, s, imm5) => serialise_load_imm(buffer, d.0, s.0, imm5.0, address),
        Operands::LDR_Imm8(d, s, imm8) => serialise_load_imm(buffer, d.0, s.0, imm8.0, address),
        Operands::LDR_REG(d, s, r) => {
            serialise_register(buffer, d.0);
            buffer.append(", [");
            serialise_pair(buffer, s.0, r.0);
            buffer.append("]");
        },
        Operands::LS_Imm5(d, s, imm5) => serialise_pair_imm(buffer, d.0, s.0, imm5.0),
        Operands::MOV_REG(d, s) => serialise_pair(buffer, d.0, s.0),
        Operands::DestImm8(d, imm8) => serialise_reg_imm(buffer, d.0, imm8.0),
        Operands::LoadableList(base, list) => {
            let registers = get_set_bits(*list);
            proof {
                lemma_set_bits_below(*list, 16);
            }
            serialise_register(buffer, base.0);
            if (1u16 << (base.0 as u16)) & *list > 0 {
                buffer.append(",");
            } else {
                buffer.append("!,");
            }
            serialise_register_list(buffer, registers);
        },
        Operands::RegisterPair(d, r) => serialise_pair(buffer, d.0, r.0),
        Operands::RegPairImm3(d, s, imm3) => serialise_pair_imm(buffer, d.0, s.0, imm3.0),
        Operands::RegisterTriplet(d, s, a) => {
            serialise_pair(buffer, d.0, s.0);
            buffer.append(", ");
            serialise_register(buffer, a.0);
        },
        Operands::PureRegisterPair(a, b) => serialise_pair(buffer, a.0, b.0),
        Operands::RegisterList(list) => {
            let registers = get_set_bits(*list);
            proof {
                lemma_set_bits_below(*list, 16);
            }
            serialise_register_list(buffer, registers);
        },
        Operands::STR_Imm5(s, base, imm5) => {
            serialise_register(buffer, s.0);
            buffer.append(", [");
            serialise_register(buffer, base.0);
            buffer.append(", #");
            u32_to_b10(buffer, imm5.0);
            buffer.append("]");
        },
        Operands::STR_Imm8(s, imm8) => {
            serialise_register(buffer, s.0);
            buffer.append(", [SP, #");
            u32_to_b10(buffer, imm8.0);
            buffer.append("]");
        },
        Operands::STR_REG(s, base, offset_reg) => {
            serialise_register(buffer, s.0);
            buffer.append(", [");
            serialise_pair(buffer, base.0, offset_reg.0);
        },
        Operands::SP_SUB(imm7) => {
            buffer.append("SP, SP, #");
            u32_to_b10(buffer, imm7.0);
        },
        Operands::Byte(imm8) => u32_to_b10(buffer, imm8.0),
        Operands::HalfWord(imm16) => u32_to_b10(buffer, imm16.0),
        Operands::EnableInterupt(flag) => {
            if *flag {
                buffer.append("CPSID i");
            } else {
                buffer.append("CPSIE i");
            }
        },
        Operands::MSR(meta, src) => {
            serialise_special_register(buffer, meta);
            buffer.append(", ");
            serialise_register(buffer, src.0);
        },
        Operands::MRS(dest, meta) => {
            serialise_register(buffer, dest.0);
            buffer.append(", ");
            serialise_special_register(buffer, meta);
        },
        Operands::Nibble(imm4) => {
            buffer.append("#");
            u32_to_b10(buffer, imm4.0);
        },
    }
    assert(buffer@ =~= start + operand_text(*operands, address));
}

/// The characters of `s` that stand between a parenthesis that opens and
/// one that closes, `inside` telling whether `s` starts inside; every
/// parenthesis switches between inside and outside and is dropped.
pub open spec fn bracket_contents(s: Seq<char>, inside: bool) -> Seq<char>
    decreases s.len(),
{
    if s.len() == 0 {
        Seq::empty()
    } else if s[0] == '(' || s[0] == ')' {
        bracket_contents(s.drop_first(), !inside)
    } else if inside {
        seq![s[0]] + bracket_contents(s.drop_first(), inside)
    } else {
        bracket_contents(s.drop_first(), inside)
    }
}

/// The text of `text` that stands inside parentheses, without them.
pub fn remove_everything_outside_brackets(text: &str) -> (r: String)
    ensures
        r@ == bracket_contents(text@, false),
{
    let chars = chars_of(text);
    let mut in_brackets = false;
    let mut new_str = String::new();
    let mut i: usize = 0;
    proof {
        assert(chars@.subrange(0, chars@.len() as int) =~= text@);
        assert(new_str@ + bracket_contents(text@, false) =~= bracket_contents(text@, false));
    }
    while i < chars.len()
        invariant
            chars@ == text@,
            i <= chars@.len(),
            new_str@ + bracket_contents(chars@.subrange(i as int, chars@.len() as int), in_brackets) == bracket_contents(text@, false),
        decreases chars@.len() - i,
    {
        let ch = chars[i];
        let ghost rest = chars@.subrange(i as int, chars@.len() as int);
        proof {
            assert(rest.drop_first() =~= chars@.subrange(i + 1, chars@.len() as int));
            assert(rest[0] == ch);
        }
        if ch == '(' || ch == ')' {
            in_brackets = !in_brackets;
        } else if in_brackets {
            let ghost before = new_str@;
            push_char(&mut new_str, ch);
            proof {
                assert(new_str@ + bracket_contents(rest.drop_first(), in_brackets) =~= before + (seq![ch] + bracket_contents(rest.drop_first(), in_brackets)));
            }
        }
        i = i + 1;
    }
    proof {
        assert(chars@.subrange(i as int, chars@.len() as int) =~= Seq::<char>::empty());
        assert(new_str@ =~= new_str@ + Seq::<char>::empty());
    }
    new_str
}

} // verus!
