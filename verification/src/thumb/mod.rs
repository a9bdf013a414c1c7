//! Thumb instructions: their encodings, their operands and their text.
pub mod decode;
pub mod decode_operands;
pub mod interpreter;
pub mod search;
pub mod listing;

use vstd::prelude::*;
use crate::binutils::BitField;
use crate::system::ArmException;

verus! {

/// Two bytes of an instruction stream, in memory (little endian) order.
pub type HalfWord = [u8; 2];

/// Four bytes of an instruction stream, in memory (little endian) order.
pub type Word = [u8; 4];

/// The number of the stack pointer register.
pub const STACK_POINTER: u8 = 13;

/// The number of the program counter register.
pub const PROGRAM_COUNTER: u8 = 15;

/// The number of the link register.
pub const LINK_REGISTER: u8 = 14;

/// A general purpose register named by an instruction.
#[derive(PartialEq, Eq, Structural, Debug, Clone, Copy)]
pub struct Register(pub u8);

/// A register that an instruction reads.
#[derive(PartialEq, Eq, Structural, Debug, Clone, Copy)]
pub struct SrcRegister(pub u8);

/// A register that an instruction writes.
#[derive(PartialEq, Eq, Structural, Debug, Clone, Copy)]
pub struct DestRegister(pub u8);

/// An immediate operand of `L` bits.
pub type Literal<const L: u32> = BitField<L>;

/// An instruction that can recognise, decode and run itself.
pub trait Intruction {
    /// What the instruction's operands decode to.
    type IOperand;

    /// Whether `hw` encodes this instruction.
    fn has_opcode(hw: &HalfWord) -> bool;

    /// The operands that `hw` encodes.
    fn get_operands(hw: &HalfWord) -> Self::IOperand;

    /// Runs the instruction.
    fn execute(args: Self::IOperand) -> Result<(), ArmException>;
}

} // verus!
