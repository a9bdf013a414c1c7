//! One step of the simulator: fetch, decode, trace and run an instruction.
use vstd::prelude::*;
use crate::binutils::{le_u32, le_bytes_u32, from_arm_bytes, u32_to_arm_bytes};
use crate::thumb::{HalfWord, Word};
use crate::thumb::decode::{
    B16, B32, Opcode, InstructionSize, spec_opcode_16, spec_opcode_32, spec_instruction_size,
    hw_decodable, instruction_size,
};
use crate::thumb::decode_operands::{
    Operands, spec_operands_16, spec_operands_32, operands_32_readable, get_operands, get_operands_32b,
    push_char, f_rd, f_rn, f_rm, f_rhi, f_imm5, f_rm4, f_rdn4,
};
use crate::thumb::interpreter::{instruction_text, instruction_printable, serialise_instruction};
use super::registers::{Registers, SpecialRegister, RegAccess, spec_needs_privileged_access};
use super::allocator::bytes_in;
use super::execute::{shape_16, ok_16, post_16, is_alu, is_move, is_branch, is_load, is_store, is_misc};
use super::{System, ArmException, Mode, aligned, execute_never, instr_word, load_thumb_instr, load_instr_32b};

verus! {

/// `mid` is `old` with the trace line of the instruction `code` with
/// operands `ops` appended, where tracing is enabled.
pub open spec fn traced_as(old: System, mid: System, code: Opcode, ops: Option<Operands>) -> bool {
    &&& mid.trace@ == if old.trace_enabled {
        (old.trace@ + instruction_text(old.registers.pc as u32, code, ops)).push('\n')
    } else {
        old.trace@
    }
    &&& mid == System { trace: mid.trace, ..old }
}

/// The 16 bit instruction that `hw` encodes.
pub open spec fn decoded_16(hw: HalfWord) -> B16 {
    spec_opcode_16(hw)->_16Bit_0
}

/// The 32 bit instruction that `w` encodes.
pub open spec fn decoded_32(w: Word) -> B32 {
    spec_opcode_32(w)->_32Bit_0
}

/// Whether an `MSR` to `special` is ignored on `s`: the register needs
/// privileged execution, which `s` does not have.
pub open spec fn msr_blocked(s: System, special: SpecialRegister) -> bool {
    spec_needs_privileged_access(special, RegAccess::WRITE) && !s.privileged()
}

/// Whether the 32 bit instruction `code` runs on `s` without a simulator
/// error: an `MSR` writes the stack pointers or `CONTROL` from a general
/// register other than SP and PC, or is ignored; a `BL` finds room for its
/// link address; `UDF.W` faults. The barriers and `MRS` are not simulated.
pub open spec fn ok_32(s: System, code: B32, ops: Operands) -> bool {
    match (code, ops) {
        (B32::MSR, Operands::MSR(special, src)) => msr_blocked(s, special) || {
            &&& src.0 <= 15 && src.0 != 13 && src.0 != 15
            &&& special == SpecialRegister::MSP || special == SpecialRegister::PSP || special
                == SpecialRegister::CONTROL
        },
        (B32::BR_AND_LNK, Operands::BR_LNK(off)) => (s.registers.pc as u32) + 4 <= u32::MAX,
        (B32::UNDEFINED, _) => true,
        _ => false,
    }
}

/// `new` is `old` after the 32 bit instruction `code`, with result `r`.
pub open spec fn post_32(old: System, new: System, code: B32, ops: Operands, r: Result<i32, ArmException>) -> bool {
    match (code, ops) {
        (B32::MSR, Operands::MSR(special, src)) => r == Ok::<i32, ArmException>(4) && if msr_blocked(
            old,
            special,
        ) {
            new == old
        } else {
            let v = old.reg_value(src.0);
            if special == SpecialRegister::MSP {
                new == System { registers: Registers { sp_main: v & 0xFFFF_FFFCu32, ..old.registers }, ..old }
            } else if special == SpecialRegister::PSP {
                new == System {
                    registers: Registers { sp_process: v & 0xFFFF_FFFCu32, ..old.registers },
                    ..old
                }
            } else {
                new == System {
                    control_register: le_bytes_u32(
                        le_u32(old.control_register) | (v & if old.mode == Mode::Thread {
                            3u32
                        } else {
                            1u32
                        }),
                    ),
                    ..old
                }
            }
        },
        (B32::BR_AND_LNK, Operands::BR_LNK(off)) => r == Ok::<i32, ArmException>(off) && new == System {
            registers: Registers { lr: (((old.registers.pc as u32) + 4) as u32) | 1u32, ..old.registers },
            ..old
        },
        _ => (r matches Err(e) && e is HardFault) && new == old,
    }
}

impl System {
    /// Runs the 32 bit instruction `code` with operands `ops`; gives the
    /// offset to move the program counter by.
    fn exec_32(&mut self, code: B32, ops: Operands) -> (r: Result<i32, ArmException>)
        requires
            ok_32(*old(self), code, ops),
        ensures
            post_32(*old(self), *final(self), code, ops, r),
    {
        match (code, ops) {
            (B32::MSR, Operands::MSR(special, src)) => {
                if special.needs_privileged_access(RegAccess::WRITE) && !self.in_privileged_mode() {
                    return Ok(4);
                }
                let src_value = self.read_any_register(src.0);
                match special {
                    SpecialRegister::MSP => {
                        self.registers.sp_main = src_value & 0xFFFFFFFC_u32;
                    },
                    SpecialRegister::PSP => {
                        self.registers.sp_process = src_value & 0xFFFFFFFC_u32;
                    },
                    _ => {
                        let mut cr = from_arm_bytes(self.control_register);
                        if matches!(self.mode, Mode::Thread) {
                            cr = cr | (src_value & 3);
                        } else {
                            cr = cr | (src_value & 1);
                        }
                        self.control_register = u32_to_arm_bytes(cr);
                    },
                }
                Ok(4)
            },
            (B32::BR_AND_LNK, Operands::BR_LNK(offset)) => {
                let next_instr_addr = (self.registers.pc as u32) + 4;
                self.registers.lr = next_instr_addr | 0x1;
                Ok(offset)
            },
            _ => Err(super::hard_fault("execution of a UDF.32 instruction is undefined")),
        }
    }
}


proof fn lemma_field_bounds(b0: u8, b1: u8, w: u16)
    by (bit_vector)
    ensures
        b0 & 0x07 < 8,
        (b0 & 0x38) >> 3u8 < 8,
        (((w & 0x01C0u16) >> 6u16) as u8) < 8,
        b1 & 0x07 < 8,
        ((w as u32) >> 6u32) & 31u32 < 32,
        ((((b0 as u32) >> 3u32) & 15u32) as u8) < 16,
        (b0 & 0x07) | ((b0 & 0x80) >> 4u8) < 16,
        (b0 & 0x78) >> 3u8 < 16,
        (b0 as u32) << 2u32 <= 1020,
        ((b0 as u16) | (((b1 & 1) as u16) << 15u16)) & 0x7F00u16 == 0,
        ((b0 as u16) | (((b1 & 1) as u16) << 14u16)) & 0xBF00u16 == 0,
{
}

/// The 16 bit decoder gives every instruction operands of the shape that
/// running it expects.
pub proof fn lemma_decoded_shape(hw: HalfWord)
    ensures
        spec_opcode_16(hw) is _16Bit,
        shape_16(decoded_16(hw), spec_operands_16(decoded_16(hw), hw)),
{
    lemma_field_bounds(hw[0], hw[1], crate::binutils::le_u16(hw));
}

/// The address the next instruction is fetched from.
pub open spec fn fetch_addr(s: System) -> u32 {
    s.registers.pc as u32
}

/// Whether an instruction can be fetched at the program counter: it is half
/// word aligned and executable.
pub open spec fn fetch_ok(s: System) -> bool {
    aligned(fetch_addr(s), 2) && !execute_never(fetch_addr(s))
}

/// The half word at the program counter.
pub open spec fn fetched_hw(s: System) -> HalfWord {
    let b = bytes_in(s.alloc.pages_map(), fetch_addr(s) as int, 2);
    [b[0], b[1]]
}

/// The word at the program counter, as a 32 bit instruction is fetched.
pub open spec fn fetched_word(s: System) -> Word {
    let b = instr_word(s.alloc, fetch_addr(s));
    [b[0], b[1], b[2], b[3]]
}

/// Whether the 16 bit instruction `hw` runs on `s` without a simulator
/// error: it decodes, its trace line can be written, and it runs on the
/// traced state.
pub open spec fn step16_defined(s: System, hw: HalfWord) -> bool {
    let code = decoded_16(hw);
    let ops = spec_operands_16(code, hw);
    &&& hw_decodable(hw)
    &&& s.trace_enabled ==> instruction_printable(fetch_addr(s), ops)
    &&& forall|mid: System| #[trigger] traced_as(s, mid, Opcode::_16Bit(code), ops) ==> ok_16(mid, code, ops)
}

/// Whether the 32 bit instruction `w` runs on `s` without a simulator
/// error.
pub open spec fn step32_defined(s: System, w: Word) -> bool {
    let code = decoded_32(w);
    let ops = spec_operands_32(code, w);
    &&& operands_32_readable(code, w)
    &&& s.trace_enabled ==> instruction_printable(fetch_addr(s), Some(ops))
    &&& forall|mid: System| #[trigger] traced_as(s, mid, Opcode::_32Bit(code), Some(ops)) ==> ok_32(mid, code, ops)
}

/// Whether a step of `s` runs without a simulator error.
pub open spec fn step_defined(s: System) -> bool {
    !s.locked_up && fetch_ok(s) ==> if spec_instruction_size(fetched_hw(s)) is B16 {
        step16_defined(s, fetched_hw(s))
    } else {
        step32_defined(s, fetched_word(s))
    }
}

/// `new` is `old` after one step, with result `r`: a locked up processor
/// does nothing; a fetch that is not allowed faults; otherwise the
/// instruction at the program counter is decoded, its line traced, and run.
pub open spec fn step_post(old: System, new: System, r: Result<i32, ArmException>) -> bool {
    if old.locked_up {
        r == Ok::<i32, ArmException>(0) && new == old
    } else if !fetch_ok(old) {
        (r matches Err(e) && e is HardFault) && new == old
    } else if spec_instruction_size(fetched_hw(old)) is B16 {
        let hw = fetched_hw(old);
        let code = decoded_16(hw);
        let ops = spec_operands_16(code, hw);
        exists|mid: System| #[trigger] traced_as(old, mid, Opcode::_16Bit(code), ops) && post_16(mid, new, code, ops, r)
    } else {
        let w = fetched_word(old);
        let code = decoded_32(w);
        let ops = spec_operands_32(code, w);
        exists|mid: System| #[trigger] traced_as(old, mid, Opcode::_32Bit(code), Some(ops)) && post_32(mid, new, code, ops, r)
    }
}

impl System {
    /// Appends the trace line of the instruction `code` with operands `ops`
    /// at `pc`, where tracing is enabled.
    fn trace_instruction(&mut self, pc: u32, code: &Opcode, ops: &Option<Operands>)
        requires
            pc == old(self).registers.pc as u32,
            old(self).trace_enabled ==> instruction_printable(pc, *ops),
        ensures
            traced_as(*old(self), *final(self), *code, *ops),
    {
        if self.trace_enabled {
            serialise_instruction(&mut self.trace, pc, code, ops);
            push_char(&mut self.trace, '\n');
        }
    }

    /// Runs the instruction at the program counter; gives the offset to move
    /// the program counter by.
    pub fn step(&mut self) -> (r: Result<i32, ArmException>)
        requires
            step_defined(*old(self)),
        ensures
            step_post(*old(self), *final(self), r),
    {
        if self.locked_up {
            return Ok(0);
        }
        let pc = self.registers.pc as u32;
        let maybe_code: [u8; 2] = load_thumb_instr(self, pc)?;
        proof {
            assert(maybe_code =~= fetched_hw(*self));
        }
        let instr_size = instruction_size(maybe_code);
        match instr_size {
            InstructionSize::B16 => {
                let code = Opcode::from_hw(&maybe_code);
                let operands = get_operands(&code, maybe_code);
                let ghost before = *self;
                self.trace_instruction(pc, &code, &operands);
                proof {
                    lemma_decoded_shape(maybe_code);
                    assert(traced_as(before, *self, code, operands));
                }
                match code {
                    Opcode::_16Bit(c) => self.exec_16(c, operands),
                    Opcode::_32Bit(_) => Ok(2),
                }
            },
            InstructionSize::B32 => {
                let word = load_instr_32b(self, pc)?;
                proof {
                    assert(word =~= fetched_word(*self));
                }
                let code = Opcode::from_word(&word);
                let operands = get_operands_32b(&code, word);
                let ghost before = *self;
                self.trace_instruction(pc, &code, &operands);
                proof {
                    assert(traced_as(before, *self, code, operands));
                }
                match (code, operands) {
                    (Opcode::_32Bit(c), Some(o)) => self.exec_32(c, o),
                    _ => Ok(4),
                }
            },
        }
    }
}

} // verus!
