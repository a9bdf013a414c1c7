//! The processor's registers and the flags of its status register.
use vstd::prelude::*;
use crate::binutils::{set_bit, clear_bit, u32_to_arm_bytes, from_arm_bytes, le_u32, le_bytes_u32};
use crate::thumb::Word;

verus! {

/// The Application Program Status Register, as four little endian bytes.
pub type Apsr = Word;

/// The special purpose registers that `MRS` and `MSR` name.
#[derive(Debug, PartialEq, Eq, Structural, Clone, Copy)]
pub enum SpecialRegister {
    APSR,
    IAPSR,
    EAPSR,
    XPSR,
    IPSR,
    EPSR,
    IEPSR,
    MSP,
    PSP,
    PRIMASK,
    CONTROL,
}

/// Whether a special register is read or written.
#[derive(Debug, PartialEq, Eq, Structural, Clone, Copy)]
pub enum RegAccess {
    READ,
    WRITE,
}

/// Whether an access to `reg` needs privileged execution: every special
/// register but `APSR`, and `CONTROL` only when written.
pub open spec fn spec_needs_privileged_access(reg: SpecialRegister, access: RegAccess) -> bool {
    match reg {
        SpecialRegister::APSR => false,
        SpecialRegister::CONTROL => access == RegAccess::WRITE,
        _ => true,
    }
}

/// The bits of the program status register that each view of it shows.
pub open spec fn spec_mask(reg: SpecialRegister) -> u32 {
    match reg {
        SpecialRegister::APSR => 0xF0000000u32,
        SpecialRegister::IAPSR => 0xF000003Fu32,
        SpecialRegister::EAPSR => 0xF1000200u32,
        SpecialRegister::XPSR => 0xF100023Fu32,
        SpecialRegister::IPSR => 0x3Fu32,
        SpecialRegister::EPSR => 0x01000200u32,
        SpecialRegister::IEPSR => 0x0100023Fu32,
        SpecialRegister::MSP => u32::MAX,
        SpecialRegister::PSP => u32::MAX,
        SpecialRegister::PRIMASK => 1u32,
        SpecialRegister::CONTROL => 3u32,
    }
}

impl SpecialRegister {
    /// Whether accessing this register needs privileged execution.
    pub fn needs_privileged_access(&self, access: RegAccess) -> (r: bool)
        ensures
            r == spec_needs_privileged_access(*self, access),
    {
        match self {
            SpecialRegister::APSR => false,
            SpecialRegister::IAPSR => true,
            SpecialRegister::EAPSR => true,
            SpecialRegister::XPSR => true,
            SpecialRegister::IPSR => true,
            SpecialRegister::EPSR => true,
            SpecialRegister::IEPSR => true,
            SpecialRegister::MSP => true,
            SpecialRegister::PSP => true,
            SpecialRegister::PRIMASK => true,
            SpecialRegister::CONTROL => match access {
                RegAccess::READ => false,
                RegAccess::WRITE => true,
            },
        }
    }

    /// The bits of the status register that this register shows.
    pub fn mask(&self) -> (r: u32)
        ensures
            r == spec_mask(*self),
    {
        proof {
            crate::binutils::lemma_bit_constants();
        }
        let apsr: u32 = 0xF0000000;
        let epsr: u32 = 0x01000200;
        let ipsr: u32 = 0x3F;
        match self {
            SpecialRegister::APSR => apsr,
            SpecialRegister::IAPSR => apsr | ipsr,
            SpecialRegister::EAPSR => epsr | apsr,
            SpecialRegister::XPSR => apsr | ipsr | epsr,
            SpecialRegister::IPSR => ipsr,
            SpecialRegister::EPSR => epsr,
            SpecialRegister::IEPSR => ipsr | epsr,
            SpecialRegister::MSP => u32::MAX,
            SpecialRegister::PSP => u32::MAX,
            SpecialRegister::PRIMASK => 1,
            SpecialRegister::CONTROL => 3,
        }
    }
}

/// The core registers: r0 to r12, the two stack pointers, the link register
/// and the program counter.
#[derive(Clone)]
pub struct Registers {
    pub generic: [u32; 13],
    pub sp_main: u32,
    pub sp_process: u32,
    pub lr: u32,
    pub pc: usize,
}

impl Registers {
    /// All registers zero.
    pub fn create() -> (r: Self)
        ensures
            forall|i: int| 0 <= i < 13 ==> #[trigger] r.generic[i] == 0,
            r.sp_main == 0,
            r.sp_process == 0,
            r.lr == 0,
            r.pc == 0,
    {
        Self { generic: [0u32; 13], sp_main: 0, sp_process: 0, lr: 0, pc: 0 }
    }
}

/// Whether the flag at bit `bit` of the status register is set.
pub open spec fn apsr_flag(apsr: Apsr, bit: u32) -> bool {
    le_u32(apsr) & (1u32 << bit) != 0
}

/// The overflow flag (V, bit 28).
pub fn get_overflow_bit(apsr: Apsr) -> (r: bool)
    ensures
        r == apsr_flag(apsr, 28),
{
    proof {
        crate::binutils::lemma_bit_constants();
    }
    let v: u32 = from_arm_bytes(apsr);
    (v & 0x10000000) != 0
}

/// The carry flag (C, bit 29).
pub fn get_carry_bit(apsr: Apsr) -> (r: bool)
    ensures
        r == apsr_flag(apsr, 29),
{
    proof {
        crate::binutils::lemma_bit_constants();
    }
    let v: u32 = from_arm_bytes(apsr);
    (v & 0x20000000) != 0
}

/// The status register with bit `bit` set to `value`.
pub open spec fn with_flag(apsr: Apsr, bit: u32, value: bool) -> Apsr {
    if value {
        le_bytes_u32(le_u32(apsr) | (1u32 << bit))
    } else {
        le_bytes_u32(le_u32(apsr) & !(1u32 << bit))
    }
}

/// Sets the negative flag (N, bit 31).
pub fn set_negative_bit(apsr: &mut Apsr)
    ensures
        *final(apsr) == with_flag(*old(apsr), 31, true),
{
    let new_val = set_bit(31, from_arm_bytes(*apsr));
    *apsr = u32_to_arm_bytes(new_val);
}

/// Clears the negative flag (N, bit 31).
pub fn clear_negative_bit(apsr: &mut Apsr)
    ensures
        *final(apsr) == with_flag(*old(apsr), 31, false),
{
    let new_val = clear_bit(31, from_arm_bytes(*apsr));
    *apsr = u32_to_arm_bytes(new_val);
}

/// Sets the zero flag (Z, bit 30).
pub fn set_zero_bit(apsr: &mut Apsr)
    ensures
        *final(apsr) == with_flag(*old(apsr), 30, true),
{
    let new_val = set_bit(30, from_arm_bytes(*apsr));
    *apsr = u32_to_arm_bytes(new_val);
}

/// Clears the zero flag (Z, bit 30).
pub fn clear_zero_bit(apsr: &mut Apsr)
    ensures
        *final(apsr) == with_flag(*old(apsr), 30, false),
{
    let new_val = clear_bit(30, from_arm_bytes(*apsr));
    *apsr = u32_to_arm_bytes(new_val);
}

/// Sets the carry flag (C, bit 29).
pub fn set_carry_bit(apsr: &mut Apsr)
    ensures
        *final(apsr) == with_flag(*old(apsr), 29, true),
{
    let new_val = set_bit(29, from_arm_bytes(*apsr));
    *apsr = u32_to_arm_bytes(new_val);
}

/// Clears the carry flag (C, bit 29).
pub fn clear_carry_bit(apsr: &mut Apsr)
    ensures
        *final(apsr) == with_flag(*old(apsr), 29, false),
{
    let new_val = clear_bit(29, from_arm_bytes(*apsr));
    *apsr = u32_to_arm_bytes(new_val);
}

/// Sets the overflow flag (V, bit 28).
pub fn set_overflow_bit(apsr: &mut Apsr)
    ensures
        *final(apsr) == with_flag(*old(apsr), 28, true),
{
    let new_val = set_bit(28, from_arm_bytes(*apsr));
    *apsr = u32_to_arm_bytes(new_val);
}

/// Clears the overflow flag (V, bit 28).
pub fn clear_overflow_bit(apsr: &mut Apsr)
    ensures
        *final(apsr) == with_flag(*old(apsr), 28, false),
{
    let new_val = clear_bit(28, from_arm_bytes(*apsr));
    *apsr = u32_to_arm_bytes(new_val);
}

} // verus!
