//! Recognising which instruction a half word or a word encodes.
use vstd::prelude::*;
use super::{HalfWord, Word};
use crate::binutils::{from_arm_bytes_16b, le_u16};

verus! {

/// The 16 bit Thumb instructions.
#[allow(non_camel_case_types)]
#[derive(Debug, PartialEq, Eq, Structural, Clone, Copy)]
pub enum B16 {
    UNDEFINED,
    ADCS,
    ADD_Imm3,
    ADD_Imm8,
    ADDS_REG,
    ADDS_REG_T2,
    ADD_REG_SP_IMM8,
    INCR_SP_BY_IMM7,
    INCR_SP_BY_REG,
    ADR,
    ANDS,
    ASRS_Imm5,
    ASRS_REG,
    SVC,
    BEQ,
    BNEQ,
    B_CARRY_IS_SET,
    B_CARRY_IS_CLEAR,
    B_IF_NEGATIVE,
    B_IF_POSITIVE,
    B_IF_OVERFLOW,
    B_IF_NO_OVERFLOW,
    B_UNSIGNED_HIGHER,
    B_UNSIGNED_LOWER_OR_SAME,
    B_GTE,
    B_LTE,
    B_GT,
    B_LT,
    B_ALWAYS,
    BIT_CLEAR_REGISTER,
    BREAKPOINT,
    BR_LNK_EXCHANGE,
    BR_EXCHANGE,
    CMP_NEG_REG,
    CMP_Imm8,
    CMP_REG_T1,
    CMP_REG_T2,
    CPS,
    XOR_REG,
    LDM,
    LDR_Imm5,
    LDR_SP_Imm8,
    LDR_PC_Imm8,
    LDR_REGS,
    LDRB_Imm5,
    LDRB_REGS,
    LDRH_Imm5,
    LDRH_REGS,
    LDRSB_REGS,
    LDRSH_REGS,
    LSL_Imm5,
    LSL_REGS,
    LSR_Imm5,
    LSR_REGS,
    MOV_Imm8,
    MOV_REGS_T1,
    MOV_REGS_T2,
    MUL,
    MVN,
    NOP,
    ORR,
    POP,
    PUSH,
    REV,
    REV_16,
    REVSH,
    ROR,
    RSB,
    SBC,
    SEV,
    STM,
    STR_Imm5,
    STR_Imm8,
    STR_REG,
    STRB_Imm5,
    STRB_REG,
    STRH_Imm5,
    STRH_REG,
    SUB_Imm3,
    SUB_Imm8,
    SUB_REG,
    SUB_SP_Imm7,
    SXTB,
    SXTH,
    TST,
    UXTB,
    UXTH,
    WFE,
    WFI,
    YIELD,
}

/// The 32 bit Thumb instructions.
#[allow(non_camel_case_types)]
#[derive(Debug, PartialEq, Eq, Structural, Clone, Copy)]
pub enum B32 {
    UNDEFINED,
    BR_AND_LNK,
    DMB,
    DSB,
    ISB,
    MRS,
    MSR,
}

/// An instruction, 16 or 32 bits wide.
#[allow(non_camel_case_types)]
#[derive(Debug, PartialEq, Eq, Structural, Clone, Copy)]
pub enum Opcode {
    _32Bit(B32),
    _16Bit(B16),
}

/// The width of an instruction.
#[derive(Debug, PartialEq, Eq, Structural, Clone, Copy)]
pub enum InstructionSize {
    B16,
    B32,
}

impl InstructionSize {
    /// The number of bytes an instruction of this width takes.
    pub fn in_bytes(&self) -> (r: u32)
        ensures
            r == (if *self is B16 { 2u32 } else { 4u32 }),
    {
        match self {
            InstructionSize::B16 => 2,
            InstructionSize::B32 => 4,
        }
    }
}

/// A half word starts a 32 bit instruction when its top five bits are
/// 0b11101, 0b11110 or 0b11111.
pub open spec fn spec_instruction_size(hw: HalfWord) -> InstructionSize {
    if hw[1] & 0xF8 >= 0xE8 {
        InstructionSize::B32
    } else {
        InstructionSize::B16
    }
}

/// The width of the instruction whose first half word is `hw`.
pub fn instruction_size(hw: HalfWord) -> (r: InstructionSize)
    ensures
        r == spec_instruction_size(hw),
{
    if hw[1] & 0xF8 >= 0xE8 {
        InstructionSize::B32
    } else {
        InstructionSize::B16
    }
}

/// The hint instructions, recognised by their whole encoding.
pub open spec fn spec_hint(hw: HalfWord) -> Option<B16> {
    if hw[0] == 0x00 && hw[1] == 0xBF {
        Some(B16::NOP)
    } else if hw[0] == 0x40 && hw[1] == 0xBF {
        Some(B16::SEV)
    } else if hw[0] == 0x20 && hw[1] == 0xBF {
        Some(B16::WFE)
    } else if hw[0] == 0x30 && hw[1] == 0xBF {
        Some(B16::WFI)
    } else if hw[0] == 0x10 && hw[1] == 0xBF {
        Some(B16::YIELD)
    } else {
        None
    }
}

/// Bits 15 to 10 of the half word: the group an encoding belongs to.
pub open spec fn spec_group(hw: HalfWord) -> u8 {
    (hw[1] & 0xFC) >> 2u8
}

/// Bits 11 to 5: which miscellaneous instruction an encoding holds.
pub open spec fn spec_misc_code(hw: HalfWord) -> u16 {
    (le_u16(hw) & 0x0FE0) >> 5u16
}

/// The miscellaneous encodings that this decoder knows.
pub open spec fn misc_defined(code: u16) -> bool {
    code <= 7 || (16 <= code <= 23) || (0x20 <= code <= 0x2F) || code == 0x33 || (0x50 <= code
        <= 0x53) || code == 0x56 || code == 0x57 || (0x60 <= code <= 0x77)
}

/// Whether the 16 bit decoder handles `hw`: every half word but the
/// miscellaneous encodings that it does not know.
pub open spec fn hw_decodable(hw: HalfWord) -> bool {
    (0x2C <= spec_group(hw) <= 0x2F && spec_hint(hw) is None) ==> misc_defined(
        spec_misc_code(hw),
    )
}

/// Whether the 16 bit decoder handles `hw`.
pub fn is_decodable(hw: HalfWord) -> (r: bool)
    ensures
        r == hw_decodable(hw),
{
    let group: u8 = (hw[1] & 0xFC) >> 2u8;
    let hint = (hw[1] == 0xBF) && (hw[0] == 0x00 || hw[0] == 0x40 || hw[0] == 0x20 || hw[0] == 0x30
        || hw[0] == 0x10);
    if 0x2C <= group && group <= 0x2F && !hint {
        let code: u16 = (from_arm_bytes_16b(hw) & 0x0FE0) >> 5u16;
        code <= 7 || (16 <= code && code <= 23) || (0x20 <= code && code <= 0x2F) || code == 0x33
            || (0x50 <= code && code <= 0x53) || code == 0x56 || code == 0x57 || (0x60 <= code && code
            <= 0x77)
    } else {
        true
    }
}

/// Data processing: bits 9 to 6 select the operation.
pub open spec fn spec_data_processing(hw: HalfWord) -> B16 {
    match (0x03C0 & le_u16(hw)) >> 6u16 {
        0 => B16::ANDS,
        1 => B16::XOR_REG,
        2 => B16::LSL_REGS,
        3 => B16::LSR_REGS,
        4 => B16::ASRS_REG,
        5 => B16::ADCS,
        6 => B16::SBC,
        7 => B16::ROR,
        8 => B16::TST,
        9 => B16::RSB,
        10 => B16::CMP_REG_T1,
        11 => B16::CMP_NEG_REG,
        12 => B16::ORR,
        13 => B16::MUL,
        14 => B16::BIT_CLEAR_REGISTER,
        _ => B16::MVN,
    }
}

/// Special data and branch exchange: bits 9 to 6 select the operation,
/// with `ADD SP, Rm` recognised by its whole pattern first.
pub open spec fn spec_special_data(hw: HalfWord) -> B16 {
    if le_u16(hw) & 0xFF87 == 0x4487 {
        B16::INCR_SP_BY_REG
    } else {
        match (0x03C0 & le_u16(hw)) >> 6u16 {
            0 | 1 | 2 | 3 => B16::ADDS_REG_T2,
            4 => B16::UNDEFINED,
            5 | 6 | 7 => B16::CMP_REG_T2,
            8 | 9 | 10 | 11 => B16::MOV_REGS_T1,
            12 | 13 => B16::BR_EXCHANGE,
            _ => B16::BR_LNK_EXCHANGE,
        }
    }
}

/// Loads and stores of one register: bits 15 to 12 and 11 to 9 select the
/// operation (bits 15 to 12 are 5 to 9 in this group).
pub open spec fn spec_load_store_single(hw: HalfWord) -> B16 {
    let op_a = (hw[1] & 0xF0) >> 4u8;
    let op_b = (hw[1] & 0x0E) >> 1u8;
    if op_a == 5 {
        match op_b {
            0 => B16::STR_REG,
            1 => B16::STRH_REG,
            2 => B16::STRB_REG,
            3 => B16::LDRSB_REGS,
            4 => B16::LDR_REGS,
            5 => B16::LDRH_REGS,
            6 => B16::LDRB_REGS,
            _ => B16::LDRSH_REGS,
        }
    } else if op_a == 6 {
        if op_b <= 3 { B16::STR_Imm5 } else { B16::LDR_Imm5 }
    } else if op_a == 7 {
        if op_b <= 3 { B16::STRB_Imm5 } else { B16::LDRB_Imm5 }
    } else if op_a == 8 {
        if op_b <= 3 { B16::STRH_Imm5 } else { B16::LDRH_Imm5 }
    } else {
        if op_b <= 3 { B16::STR_Imm8 } else { B16::LDR_SP_Imm8 }
    }
}

/// Miscellaneous instructions, selected by bits 11 to 5.
pub open spec fn spec_misc(hw: HalfWord) -> B16 {
    let code = spec_misc_code(hw);
    if code <= 3 {
        B16::INCR_SP_BY_IMM7
    } else if code <= 7 {
        B16::SUB_SP_Imm7
    } else if code == 16 || code == 17 {
        B16::SXTH
    } else if code == 18 || code == 19 {
        B16::SXTB
    } else if code == 0x14 || code == 0x15 {
        B16::UXTH
    } else if code == 0x16 || code == 0x17 {
        B16::UXTB
    } else if 0x20 <= code <= 0x2F {
        B16::PUSH
    } else if code == 0x33 {
        B16::CPS
    } else if code == 0x50 || code == 0x51 {
        B16::REV
    } else if code == 0x52 || code == 0x53 {
        B16::REV_16
    } else if code == 0x56 || code == 0x57 {
        B16::REVSH
    } else if 0x60 <= code <= 0x6F {
        B16::POP
    } else {
        B16::BREAKPOINT
    }
}

/// Conditional branches and supervisor calls, selected by bits 11 to 8.
pub open spec fn spec_cond_branch(hw: HalfWord) -> B16 {
    match hw[1] & 0x0F {
        0x00 => B16::BEQ,
        0x01 => B16::BNEQ,
        0x02 => B16::B_CARRY_IS_SET,
        0x03 => B16::B_CARRY_IS_CLEAR,
        0x04 => B16::B_IF_NEGATIVE,
        0x05 => B16::B_IF_POSITIVE,
        0x06 => B16::B_IF_OVERFLOW,
        0x07 => B16::B_IF_NO_OVERFLOW,
        0x08 => B16::B_UNSIGNED_HIGHER,
        0x09 => B16::B_UNSIGNED_LOWER_OR_SAME,
        0x0A => B16::B_GTE,
        0x0B => B16::B_LT,
        0x0C => B16::B_GT,
        0x0D => B16::B_LTE,
        0x0E => B16::UNDEFINED,
        _ => B16::SVC,
    }
}

/// Shifts, adds, subtractions, moves and compares: bits 13 to 9 select the
/// operation; a shift by zero is a move.
pub open spec fn spec_shift_add_sub_mv_cmpr(hw: HalfWord) -> B16 {
    let code = (hw[1] & 0x3E) >> 1u8;
    if code <= 3 {
        if le_u16(hw) & 0x01C0 == 0 {
            B16::MOV_REGS_T2
        } else {
            B16::LSL_Imm5
        }
    } else if code <= 7 {
        B16::LSR_Imm5
    } else if code <= 0x0B {
        B16::ASRS_Imm5
    } else if code == 0x0C {
        B16::ADDS_REG
    } else if code == 0x0D {
        B16::SUB_REG
    } else if code == 0x0E {
        B16::ADD_Imm3
    } else if code == 0x0F {
        B16::SUB_Imm3
    } else if code <= 0x13 {
        B16::MOV_Imm8
    } else if code <= 0x17 {
        B16::CMP_Imm8
    } else if code <= 0x1B {
        B16::ADD_Imm8
    } else {
        B16::SUB_Imm8
    }
}

/// The 16 bit instruction that `hw` encodes.
pub open spec fn spec_opcode_16(hw: HalfWord) -> Opcode {
    match spec_hint(hw) {
        Some(h) => Opcode::_16Bit(h),
        None => {
            let group = spec_group(hw);
            if group <= 0xF {
                Opcode::_16Bit(spec_shift_add_sub_mv_cmpr(hw))
            } else if group == 0x10 {
                Opcode::_16Bit(spec_data_processing(hw))
            } else if group == 0x11 {
                Opcode::_16Bit(spec_special_data(hw))
            } else if group == 0x12 || group == 0x13 {
                Opcode::_16Bit(B16::LDR_PC_Imm8)
            } else if 0x14 <= group <= 0x27 {
                Opcode::_16Bit(spec_load_store_single(hw))
            } else if group == 0x28 || group == 0x29 {
                Opcode::_16Bit(B16::ADR)
            } else if group == 0x2A || group == 0x2B {
                Opcode::_16Bit(B16::ADD_REG_SP_IMM8)
            } else if 0x2C <= group <= 0x2F {
                Opcode::_16Bit(spec_misc(hw))
            } else if group == 0x30 || group == 0x31 {
                Opcode::_16Bit(B16::STM)
            } else if group == 0x32 || group == 0x33 {
                Opcode::_16Bit(B16::LDM)
            } else if 0x34 <= group <= 0x37 {
                Opcode::_16Bit(spec_cond_branch(hw))
            } else if group == 0x38 || group == 0x39 {
                Opcode::_16Bit(B16::B_ALWAYS)
            } else {
                Opcode::_16Bit(B16::UNDEFINED)
            }
        },
    }
}

/// The first half word of a 32 bit instruction, as a number.
pub open spec fn spec_word_hw1(w: Word) -> u16 {
    le_u16([w[0], w[1]])
}

/// The second half word of a 32 bit instruction, as a number.
pub open spec fn spec_word_hw2(w: Word) -> u16 {
    le_u16([w[2], w[3]])
}

/// `BL`: 0b11110 in bits 15 to 11 of the first half word, and bits 15, 14
/// and 12 set in the second.
pub open spec fn spec_bl_mask(w: Word) -> bool {
    (w[1] & 0xF8 == 0xF0) && (w[3] & 0xD0 == 0xD0)
}

/// The permanently undefined 32 bit encoding `UDF.W`.
pub open spec fn spec_udf_word_mask(w: Word) -> bool {
    (spec_word_hw1(w) & 0xFFF0 == 0xF7F0) && (w[3] & 0xF0 == 0xA0)
}

/// The 32 bit instruction that `w` encodes.
pub open spec fn spec_opcode_32(w: Word) -> Opcode {
    let hw1 = spec_word_hw1(w);
    let hw2 = spec_word_hw2(w);
    if spec_bl_mask(w) {
        Opcode::_32Bit(B32::BR_AND_LNK)
    } else if spec_udf_word_mask(w) {
        Opcode::_32Bit(B32::UNDEFINED)
    } else if hw1 & 0xFFF0 == 0xF380 && hw2 & 0xD000 == 0x8000 {
        Opcode::_32Bit(B32::MSR)
    } else if hw1 == 0xF3EF && hw2 & 0xD000 == 0x8000 {
        Opcode::_32Bit(B32::MRS)
    } else if hw1 == 0xF3BF && hw2 & 0xFFF0 == 0x8F40 {
        Opcode::_32Bit(B32::DSB)
    } else if hw1 == 0xF3BF && hw2 & 0xFFF0 == 0x8F50 {
        Opcode::_32Bit(B32::DMB)
    } else if hw1 == 0xF3BF && hw2 & 0xFFF0 == 0x8F60 {
        Opcode::_32Bit(B32::ISB)
    } else {
        Opcode::_32Bit(B32::UNDEFINED)
    }
}

/// The mnemonic of a 16 bit instruction.
pub open spec fn b16_mnemonic(op: B16) -> &'static str {
    match op {
        B16::UNDEFINED => "UDF",
        B16::ADCS => "ADCS",
        B16::ADD_Imm3 => "ADDS",
        B16::ADD_Imm8 => "ADDS",
        B16::ADDS_REG => "ADDS",
        B16::ADDS_REG_T2 => "ADD",
        B16::ADD_REG_SP_IMM8 => "ADD",
        B16::INCR_SP_BY_IMM7 => "ADD",
        B16::INCR_SP_BY_REG => "ADD",
        B16::ADR => "ADR",
        B16::ANDS => "ANDS",
        B16::ASRS_Imm5 => "ASRS",
        B16::ASRS_REG => "ASRS",
        B16::SVC => "SVC",
        B16::BEQ => "BEQ",
        B16::BNEQ => "BNE",
        B16::B_CARRY_IS_SET => "BCS",
        B16::B_CARRY_IS_CLEAR => "BCC",
        B16::B_IF_NEGATIVE => "BMI",
        B16::B_IF_POSITIVE => "BPL",
        B16::B_IF_OVERFLOW => "BVS",
        B16::B_IF_NO_OVERFLOW => "BVC",
        B16::B_UNSIGNED_HIGHER => "BHI",
        B16::B_UNSIGNED_LOWER_OR_SAME => "BLS",
        B16::B_GTE => "BGE",
        B16::B_LTE => "BLE",
        B16::B_GT => "BGT",
        B16::B_LT => "BLT",
        B16::B_ALWAYS => "B",
        B16::BIT_CLEAR_REGISTER => "BICS",
        B16::BREAKPOINT => "BKPT",
        B16::BR_LNK_EXCHANGE => "BLX",
        B16::BR_EXCHANGE => "BX",
        B16::CMP_NEG_REG => "CMN",
        B16::CMP_Imm8 => "CMP",
        B16::CMP_REG_T1 => "CMP",
        B16::CMP_REG_T2 => "CMP",
        B16::CPS => "CPS",
        B16::XOR_REG => "EORS",
        B16::LDM => "LDM",
        B16::LDR_Imm5 => "LDR",
        B16::LDR_SP_Imm8 => "LDR",
        B16::LDR_PC_Imm8 => "LDR",
        B16::LDR_REGS => "LDR",
        B16::LDRB_Imm5 => "LDRB",
        B16::LDRB_REGS => "LDRB",
        B16::LDRH_Imm5 => "LDRH",
        B16::LDRH_REGS => "LDRH",
        B16::LDRSB_REGS => "LDRSB",
        B16::LDRSH_REGS => "LDRSH",
        B16::LSL_Imm5 => "LSLS",
        B16::LSL_REGS => "LSLS",
        B16::LSR_Imm5 => "LSRS",
        B16::LSR_REGS => "LSRS",
        B16::MOV_Imm8 => "MOVS",
        B16::MOV_REGS_T1 => "MOV",
        B16::MOV_REGS_T2 => "MOVS",
        B16::MUL => "MULS",
        B16::MVN => "MVNS",
        B16::NOP => "NOP",
        B16::ORR => "ORRS",
        B16::POP => "POP",
        B16::PUSH => "PUSH",
        B16::REV => "REV",
        B16::REV_16 => "REV16",
        B16::REVSH => "REVSH",
        B16::ROR => "RORS",
        B16::RSB => "RSBS",
        B16::SBC => "SBCS",
        B16::SEV => "SEV",
        B16::STM => "STM",
        B16::STR_Imm5 => "STR",
        B16::STR_Imm8 => "STR",
        B16::STR_REG => "STR",
        B16::STRB_Imm5 => "STRB",
        B16::STRB_REG => "STRB",
        B16::STRH_Imm5 => "STRH",
        B16::STRH_REG => "STRH",
        B16::SUB_Imm3 => "SUBS",
        B16::SUB_Imm8 => "SUBS",
        B16::SUB_REG => "SUBS",
        B16::SUB_SP_Imm7 => "SUB",
        B16::SXTB => "SXTB",
        B16::SXTH => "SXTH",
        B16::TST => "TST",
        B16::UXTB => "UXTB",
        B16::UXTH => "UXTH",
        B16::WFE => "WFE",
        B16::WFI => "WFI",
        B16::YIELD => "YIELD",
    }
}

/// The mnemonic of a 32 bit instruction.
pub open spec fn b32_mnemonic(op: B32) -> &'static str {
    match op {
        B32::UNDEFINED => "UDF.W",
        B32::BR_AND_LNK => "BL",
        B32::DMB => "DMB",
        B32::DSB => "DSB",
        B32::ISB => "ISB",
        B32::MRS => "MRS",
        B32::MSR => "MSR",
    }
}

/// The mnemonic of an instruction.
pub open spec fn opcode_mnemonic(code: Opcode) -> &'static str {
    match code {
        Opcode::_16Bit(op) => b16_mnemonic(op),
        Opcode::_32Bit(op) => b32_mnemonic(op),
    }
}

impl Opcode {
    /// The 16 bit instruction that `hw` encodes.
    pub fn from_hw(hw: &HalfWord) -> (r: Opcode)
        requires
            hw_decodable(*hw),
        ensures
            r == spec_opcode_16(*hw),
    {
        if hw[0] == 0x00 && hw[1] == 0xBF {
            return Opcode::_16Bit(B16::NOP);
        } else if hw[0] == 0x40 && hw[1] == 0xBF {
            return Opcode::_16Bit(B16::SEV);
        } else if hw[0] == 0x20 && hw[1] == 0xBF {
            return Opcode::_16Bit(B16::WFE);
        } else if hw[0] == 0x30 && hw[1] == 0xBF {
            return Opcode::_16Bit(B16::WFI);
        } else if hw[0] == 0x10 && hw[1] == 0xBF {
            return Opcode::_16Bit(B16::YIELD);
        }
        let op_code = (hw[1] & 0xFC) >> 2;
        if op_code <= 0xF {
            shift_add_sub_mv_cmpr(hw)
        } else if op_code == 0x10 {
            data_proccess(hw)
        } else if op_code == 0x11 {
            special_data(hw)
        } else if op_code == 0x12 || op_code == 0x13 {
            Opcode::_16Bit(B16::LDR_PC_Imm8)
        } else if 0x14 <= op_code && op_code <= 0x27 {
            proof {
                lemma_load_store_group(hw[1]);
            }
            load_store_single(hw)
        } else if op_code == 0x28 || op_code == 0x29 {
            Opcode::_16Bit(B16::ADR)
        } else if op_code == 0x2A || op_code == 0x2B {
            Opcode::_16Bit(B16::ADD_REG_SP_IMM8)
        } else if 0x2C <= op_code && op_code <= 0x2F {
            misc(hw)
        } else if op_code == 0x30 || op_code == 0x31 {
            Opcode::_16Bit(B16::STM)
        } else if op_code == 0x32 || op_code == 0x33 {
            Opcode::_16Bit(B16::LDM)
        } else if 0x34 <= op_code && op_code <= 0x37 {
            cond_branch(hw)
        } else if op_code == 0x38 || op_code == 0x39 {
            Opcode::_16Bit(B16::B_ALWAYS)
        } else {
            Opcode::_16Bit(B16::UNDEFINED)
        }
    }

    /// The 32 bit instruction that `a` encodes.
    pub fn from_word(a: &Word) -> (r: Opcode)
        ensures
            r == spec_opcode_32(*a),
    {
        if bl_mask(a) {
            return Opcode::_32Bit(B32::BR_AND_LNK);
        }
        if udf_word_mask(a) {
            return Opcode::_32Bit(B32::UNDEFINED);
        }
        let hw1 = from_arm_bytes_16b([a[0], a[1]]);
        let hw2 = from_arm_bytes_16b([a[2], a[3]]);
        if hw1 & 0xFFF0 == 0xF380 && hw2 & 0xD000 == 0x8000 {
            Opcode::_32Bit(B32::MSR)
        } else if hw1 == 0xF3EF && hw2 & 0xD000 == 0x8000 {
            Opcode::_32Bit(B32::MRS)
        } else if hw1 == 0xF3BF && hw2 & 0xFFF0 == 0x8F40 {
            Opcode::_32Bit(B32::DSB)
        } else if hw1 == 0xF3BF && hw2 & 0xFFF0 == 0x8F50 {
            Opcode::_32Bit(B32::DMB)
        } else if hw1 == 0xF3BF && hw2 & 0xFFF0 == 0x8F60 {
            Opcode::_32Bit(B32::ISB)
        } else {
            Opcode::_32Bit(B32::UNDEFINED)
        }
    }
}

fn data_proccess(hw: &HalfWord) -> (r: Opcode)
    ensures
        r == Opcode::_16Bit(spec_data_processing(*hw)),
{
    let native = from_arm_bytes_16b(*hw);
    let code = (0x03C0 & native) >> 6;
    match code {
        0 => Opcode::_16Bit(B16::ANDS),
        1 => Opcode::_16Bit(B16::XOR_REG),
        2 => Opcode::_16Bit(B16::LSL_REGS),
        3 => Opcode::_16Bit(B16::LSR_REGS),
        4 => Opcode::_16Bit(B16::ASRS_REG),
        5 => Opcode::_16Bit(B16::ADCS),
        6 => Opcode::_16Bit(B16::SBC),
        7 => Opcode::_16Bit(B16::ROR),
        8 => Opcode::_16Bit(B16::TST),
        9 => Opcode::_16Bit(B16::RSB),
        10 => Opcode::_16Bit(B16::CMP_REG_T1),
        11 => Opcode::_16Bit(B16::CMP_NEG_REG),
        12 => Opcode::_16Bit(B16::ORR),
        13 => Opcode::_16Bit(B16::MUL),
        14 => Opcode::_16Bit(B16::BIT_CLEAR_REGISTER),
        _ => Opcode::_16Bit(B16::MVN),
    }
}

fn special_data(hw: &HalfWord) -> (r: Opcode)
    ensures
        r == Opcode::_16Bit(spec_special_data(*hw)),
{
    let native = from_arm_bytes_16b(*hw);
    if native & 0xFF87 == 0x4487 {
        return Opcode::_16Bit(B16::INCR_SP_BY_REG);
    }
    let code = (0x03C0 & native) >> 6;
    match code {
        0 | 1 | 2 | 3 => Opcode::_16Bit(B16::ADDS_REG_T2),
        4 => Opcode::_16Bit(B16::UNDEFINED),
        5 | 6 | 7 => Opcode::_16Bit(B16::CMP_REG_T2),
        8 | 9 | 10 | 11 => Opcode::_16Bit(B16::MOV_REGS_T1),
        12 | 13 => Opcode::_16Bit(B16::BR_EXCHANGE),
        _ => Opcode::_16Bit(B16::BR_LNK_EXCHANGE),
    }
}

proof fn lemma_load_store_group(b: u8)
    by (bit_vector)
    ensures
        (0x14u8 <= (b & 0xFC) >> 2u8 && (b & 0xFC) >> 2u8 <= 0x27u8) ==> (5u8 <= (b & 0xF0) >> 4u8
            && (b & 0xF0) >> 4u8 <= 9u8),
{
}

fn load_store_single(hw: &HalfWord) -> (r: Opcode)
    requires
        5 <= (hw[1] & 0xF0) >> 4u8 <= 9,
    ensures
        r == Opcode::_16Bit(spec_load_store_single(*hw)),
{
    let op_a = (hw[1] & 0xF0) >> 4;
    let op_b = (hw[1] & 0x0E) >> 1;
    if op_a == 5 {
        match op_b {
            0 => Opcode::_16Bit(B16::STR_REG),
            1 => Opcode::_16Bit(B16::STRH_REG),
            2 => Opcode::_16Bit(B16::STRB_REG),
            3 => Opcode::_16Bit(B16::LDRSB_REGS),
            4 => Opcode::_16Bit(B16::LDR_REGS),
            5 => Opcode::_16Bit(B16::LDRH_REGS),
            6 => Opcode::_16Bit(B16::LDRB_REGS),
            _ => Opcode::_16Bit(B16::LDRSH_REGS),
        }
    } else if op_a == 6 {
        if op_b <= 3 {
            Opcode::_16Bit(B16::STR_Imm5)
        } else {
            Opcode::_16Bit(B16::LDR_Imm5)
        }
    } else if op_a == 7 {
        if op_b <= 3 {
            Opcode::_16Bit(B16::STRB_Imm5)
        } else {
            Opcode::_16Bit(B16::LDRB_Imm5)
        }
    } else if op_a == 8 {
        if op_b <= 3 {
            Opcode::_16Bit(B16::STRH_Imm5)
        } else {
            Opcode::_16Bit(B16::LDRH_Imm5)
        }
    } else {
        if op_b <= 3 {
            Opcode::_16Bit(B16::STR_Imm8)
        } else {
            Opcode::_16Bit(B16::LDR_SP_Imm8)
        }
    }
}

fn misc(hw: &HalfWord) -> (r: Opcode)
    requires
        misc_defined(spec_misc_code(*hw)),
    ensures
        r == Opcode::_16Bit(spec_misc(*hw)),
{
    let code = (from_arm_bytes_16b(*hw) & 0x0FE0) >> 5;
    if code <= 3 {
        Opcode::_16Bit(B16::INCR_SP_BY_IMM7)
    } else if code <= 7 {
        Opcode::_16Bit(B16::SUB_SP_Imm7)
    } else if code == 16 || code == 17 {
        Opcode::_16Bit(B16::SXTH)
    } else if code == 18 || code == 19 {
        Opcode::_16Bit(B16::SXTB)
    } else if code == 0x14 || code == 0x15 {
        Opcode::_16Bit(B16::UXTH)
    } else if code == 0x16 || code == 0x17 {
        Opcode::_16Bit(B16::UXTB)
    } else if 0x20 <= code && code <= 0x2F {
        Opcode::_16Bit(B16::PUSH)
    } else if code == 0x33 {
        Opcode::_16Bit(B16::CPS)
    } else if code == 0x50 || code == 0x51 {
        Opcode::_16Bit(B16::REV)
    } else if code == 0x52 || code == 0x53 {
        Opcode::_16Bit(B16::REV_16)
    } else if code == 0x56 || code == 0x57 {
        Opcode::_16Bit(B16::REVSH)
    } else if 0x60 <= code && code <= 0x6F {
        Opcode::_16Bit(B16::POP)
    } else {
        Opcode::_16Bit(B16::BREAKPOINT)
    }
}

fn cond_branch(hw: &HalfWord) -> (r: Opcode)
    ensures
        r == Opcode::_16Bit(spec_cond_branch(*hw)),
{
    let cond = hw[1] & 0x0F;
    match cond {
        0x00 => Opcode::_16Bit(B16::BEQ),
        0x01 => Opcode::_16Bit(B16::BNEQ),
        0x02 => Opcode::_16Bit(B16::B_CARRY_IS_SET),
        0x03 => Opcode::_16Bit(B16::B_CARRY_IS_CLEAR),
        0x04 => Opcode::_16Bit(B16::B_IF_NEGATIVE),
        0x05 => Opcode::_16Bit(B16::B_IF_POSITIVE),
        0x06 => Opcode::_16Bit(B16::B_IF_OVERFLOW),
        0x07 => Opcode::_16Bit(B16::B_IF_NO_OVERFLOW),
        0x08 => Opcode::_16Bit(B16::B_UNSIGNED_HIGHER),
        0x09 => Opcode::_16Bit(B16::B_UNSIGNED_LOWER_OR_SAME),
        0x0A => Opcode::_16Bit(B16::B_GTE),
        0x0B => Opcode::_16Bit(B16::B_LT),
        0x0C => Opcode::_16Bit(B16::B_GT),
        0x0D => Opcode::_16Bit(B16::B_LTE),
        0x0E => Opcode::_16Bit(B16::UNDEFINED),
        _ => Opcode::_16Bit(B16::SVC),
    }
}

fn shift_add_sub_mv_cmpr(hw: &HalfWord) -> (r: Opcode)
    ensures
        r == Opcode::_16Bit(spec_shift_add_sub_mv_cmpr(*hw)),
{
    let code = (hw[1] & 0x3E) >> 1;
    if code <= 3 {
        if from_arm_bytes_16b(*hw) & 0x01C0 == 0 {
            Opcode::_16Bit(B16::MOV_REGS_T2)
        } else {
            Opcode::_16Bit(B16::LSL_Imm5)
        }
    } else if code <= 7 {
        Opcode::_16Bit(B16::LSR_Imm5)
    } else if code <= 0x0B {
        Opcode::_16Bit(B16::ASRS_Imm5)
    } else if code == 0x0C {
        Opcode::_16Bit(B16::ADDS_REG)
    } else if code == 0x0D {
        Opcode::_16Bit(B16::SUB_REG)
    } else if code == 0x0E {
        Opcode::_16Bit(B16::ADD_Imm3)
    } else if code == 0x0F {
        Opcode::_16Bit(B16::SUB_Imm3)
    } else if code <= 0x13 {
        Opcode::_16Bit(B16::MOV_Imm8)
    } else if code <= 0x17 {
        Opcode::_16Bit(B16::CMP_Imm8)
    } else if code <= 0x1B {
        Opcode::_16Bit(B16::ADD_Imm8)
    } else {
        Opcode::_16Bit(B16::SUB_Imm8)
    }
}

fn bl_mask(bytes: &Word) -> (r: bool)
    ensures
        r == spec_bl_mask(*bytes),
{
    (bytes[1] & 0xF8 == 0xF0) && (bytes[3] & 0xD0 == 0xD0)
}

fn udf_word_mask(bytes: &Word) -> (r: bool)
    ensures
        r == spec_udf_word_mask(*bytes),
{
    let hw_slice: HalfWord = [bytes[0], bytes[1]];
    (from_arm_bytes_16b(hw_slice) & 0xFFF0 == 0xF7F0) && (bytes[3] & 0xF0 == 0xA0)
}

/// The opcodes of an instruction stream, decoded from `i` on: a 16 bit
/// instruction takes two bytes; a half word that the 16 bit decoder calls
/// undefined starts a 32 bit instruction of four bytes, and ends the stream
/// when fewer than four bytes are left. `None` where the decoder stops on a
/// half word that it cannot read.
pub open spec fn spec_decode_stream(s: Seq<u8>, i: int) -> Option<Seq<Opcode>>
    decreases s.len() - i,
{
    if i >= s.len() || i < 0 {
        Some(Seq::empty())
    } else if i + 2 > s.len() {
        None
    } else {
        let hw: HalfWord = [s[i], s[i + 1]];
        if !hw_decodable(hw) {
            None
        } else if spec_opcode_16(hw) == Opcode::_16Bit(B16::UNDEFINED) {
            if i + 4 > s.len() {
                Some(Seq::empty())
            } else {
                match spec_decode_stream(s, i + 4) {
                    Some(rest) => Some(seq![spec_opcode_32([s[i], s[i + 1], s[i + 2], s[i + 3]])] + rest),
                    None => None,
                }
            }
        } else {
            match spec_decode_stream(s, i + 2) {
                Some(rest) => Some(seq![spec_opcode_16(hw)] + rest),
                None => None,
            }
        }
    }
}

/// The opcodes of the instruction stream `bytes`.
pub fn decode_opcodes(bytes: &[u8]) -> (opcodes: Vec<Opcode>)
    requires
        spec_decode_stream(bytes@, 0) is Some,
    ensures
        opcodes@ == spec_decode_stream(bytes@, 0)->0,
{
    let mut i: usize = 0;
    let mut opcodes: Vec<Opcode> = Vec::new();
    while i < bytes.len()
        invariant_except_break
            i <= bytes.len(),
            spec_decode_stream(bytes@, i as int) is Some,
            spec_decode_stream(bytes@, 0) is Some,
            spec_decode_stream(bytes@, 0)->0 == opcodes@ + spec_decode_stream(bytes@, i as int)->0,
        ensures
            spec_decode_stream(bytes@, 0)->0 == opcodes@,
        decreases bytes.len() - i,
    {
        let hw: [u8; 2] = [bytes[i], bytes[i + 1]];
        let thumb_instruction = Opcode::from_hw(&hw);
        if thumb_instruction == Opcode::_16Bit(B16::UNDEFINED) {
            if bytes.len() - i < 4 {
                break;
            }
            let word: [u8; 4] = [bytes[i], bytes[i + 1], bytes[i + 2], bytes[i + 3]];
            let instruction_32bit = Opcode::from_word(&word);
            opcodes.push(instruction_32bit);
            i += 4;
        } else {
            opcodes.push(thumb_instruction);
            i += 2;
        }
    }
    opcodes
}

/// Writes the mnemonic of `code` at the end of `buffer`.
pub fn serialise_opcode(buffer: &mut String, code: &Opcode)
    ensures
        final(buffer)@ == old(buffer)@ + opcode_mnemonic(*code)@,
{
    let text: &'static str = opcode_text(code);
    buffer.append(text);
}

/// The mnemonic of `code`.
pub fn opcode_text(code: &Opcode) -> (r: &'static str)
    ensures
        r == opcode_mnemonic(*code),
{
    match code {
        Opcode::_16Bit(op) => b16_text(op),
        Opcode::_32Bit(op) => match op {
            B32::UNDEFINED => "UDF.W",
            B32::BR_AND_LNK => "BL",
            B32::DMB => "DMB",
            B32::DSB => "DSB",
            B32::ISB => "ISB",
            B32::MRS => "MRS",
            B32::MSR => "MSR",
        },
    }
}

fn b16_text(op: &B16) -> (r: &'static str)
    ensures
        r == b16_mnemonic(*op),
{
    match op {
        B16::UNDEFINED => "UDF",
        B16::ADCS => "ADCS",
        B16::ADD_Imm3 => "ADDS",
        B16::ADD_Imm8 => "ADDS",
        B16::ADDS_REG => "ADDS",
        B16::ADDS_REG_T2 => "ADD",
        B16::ADD_REG_SP_IMM8 => "ADD",
        B16::INCR_SP_BY_IMM7 => "ADD",
        B16::INCR_SP_BY_REG => "ADD",
        B16::ADR => "ADR",
        B16::ANDS => "ANDS",
        B16::ASRS_Imm5 => "ASRS",
        B16::ASRS_REG => "ASRS",
        B16::SVC => "SVC",
        B16::BEQ => "BEQ",
        B16::BNEQ => "BNE",
        B16::B_CARRY_IS_SET => "BCS",
        B16::B_CARRY_IS_CLEAR => "BCC",
        B16::B_IF_NEGATIVE => "BMI",
        B16::B_IF_POSITIVE => "BPL",
        B16::B_IF_OVERFLOW => "BVS",
        B16::B_IF_NO_OVERFLOW => "BVC",
        B16::B_UNSIGNED_HIGHER => "BHI",
        B16::B_UNSIGNED_LOWER_OR_SAME => "BLS",
        B16::B_GTE => "BGE",
        B16::B_LTE => "BLE",
        B16::B_GT => "BGT",
        B16::B_LT => "BLT",
        B16::B_ALWAYS => "B",
        B16::BIT_CLEAR_REGISTER => "BICS",
        B16::BREAKPOINT => "BKPT",
        B16::BR_LNK_EXCHANGE => "BLX",
        B16::BR_EXCHANGE => "BX",
        B16::CMP_NEG_REG => "CMN",
        B16::CMP_Imm8 => "CMP",
        B16::CMP_REG_T1 => "CMP",
        B16::CMP_REG_T2 => "CMP",
        B16::CPS => "CPS",
        B16::XOR_REG => "EORS",
        B16::LDM => "LDM",
        B16::LDR_Imm5 => "LDR",
        B16::LDR_SP_Imm8 => "LDR",
        B16::LDR_PC_Imm8 => "LDR",
        B16::LDR_REGS => "LDR",
        B16::LDRB_Imm5 => "LDRB",
        B16::LDRB_REGS => "LDRB",
        B16::LDRH_Imm5 => "LDRH",
        B16::LDRH_REGS => "LDRH",
        B16::LDRSB_REGS => "LDRSB",
        B16::LDRSH_REGS => "LDRSH",
        B16::LSL_Imm5 => "LSLS",
        B16::LSL_REGS => "LSLS",
        B16::LSR_Imm5 => "LSRS",
        B16::LSR_REGS => "LSRS",
        B16::MOV_Imm8 => "MOVS",
        B16::MOV_REGS_T1 => "MOV",
        B16::MOV_REGS_T2 => "MOVS",
        B16::MUL => "MULS",
        B16::MVN => "MVNS",
        B16::NOP => "NOP",
        B16::ORR => "ORRS",
        B16::POP => "POP",
        B16::PUSH => "PUSH",
        B16::REV => "REV",
        B16::REV_16 => "REV16",
        B16::REVSH => "REVSH",
        B16::ROR => "RORS",
        B16::RSB => "RSBS",
        B16::SBC => "SBCS",
        B16::SEV => "SEV",
        B16::STM => "STM",
        B16::STR_Imm5 => "STR",
        B16::STR_Imm8 => "STR",
        B16::STR_REG => "STR",
        B16::STRB_Imm5 => "STRB",
        B16::STRB_REG => "STRB",
        B16::STRH_Imm5 => "STRH",
        B16::STRH_REG => "STRH",
        B16::SUB_Imm3 => "SUBS",
        B16::SUB_Imm8 => "SUBS",
        B16::SUB_REG => "SUBS",
        B16::SUB_SP_Imm7 => "SUB",
        B16::SXTB => "SXTB",
        B16::SXTH => "SXTH",
        B16::TST => "TST",
        B16::UXTB => "UXTB",
        B16::UXTH => "UXTH",
        B16::WFE => "WFE",
        B16::WFI => "WFI",
        B16::YIELD => "YIELD",
    }
}

} // verus!
