//! A model of an ARMv6-M processor: registers, memory, exceptions.
use vstd::prelude::*;
use std::collections::HashMap;
use vstd::string::StringExecFns;
use crate::binutils::{from_arm_bytes, u32_to_arm_bytes, le_u32, le_bytes_u32, lemma_le_bytes_u32_roundtrip};
use self::registers::{Registers, Apsr, apsr_flag};
use self::instructions::ConditionFlags;
use self::allocator::{bytes_in, byte_in, offset_of, written, lemma_read_after_write, lemma_write_leaves_others};
use self::exceptions::{spec_full_access, exception_number, spec_priority_group, has_priority, IPSR_MASK};

pub mod registers;
pub mod instructions;
pub mod allocator;
pub mod exceptions;
pub mod handlers;
pub mod execute;
pub mod step;
pub mod simulator;
pub mod trace;

pub use allocator::{BlockAllocator, PAGE_SIZE, Page};
pub use exceptions::{
    ArmException, ExceptionStatus, SystemControlSpace, MemPermission, AccessPermission, Access,
};

verus! {

/// Whether the processor runs a program (thread mode) or an exception
/// handler (handler mode).
#[derive(Clone, Copy, Debug, PartialEq, Eq, Structural)]
pub enum Mode {
    Thread,
    Handler,
}

/// Reset values given in place of those of the vector table.
#[derive(Clone, Copy, Debug, PartialEq, Eq, Structural)]
pub struct ResetCfg {
    pub sp_reset_val: u32,
    pub reset_hander_ptr: u32,
}

/// The state of the simulated processor and its memory.
pub struct System {
    pub registers: Registers,
    pub xpsr: Apsr,
    pub control_register: [u8; 4],
    pub event_register: bool,
    pub active_exceptions: [ExceptionStatus; 48],
    pub scs: SystemControlSpace,
    pub mode: Mode,
    pub primask: bool,
    pub breakpoints: Vec<usize>,
    pub trace_enabled: bool,
    pub trace: String,
    pub alloc: BlockAllocator,
    pub reset_cfg: Option<ResetCfg>,
    pub vtor_override: Option<u32>,
    pub locked_up: bool,
}

/// The exception number of the program status register `xpsr`.
pub open spec fn ipsr_of(xpsr: Apsr) -> u32 {
    le_u32(xpsr) & 0x3Fu32
}

/// The word `w` with the four condition flags set from `f`.
pub open spec fn flags_word(w: u32, f: ConditionFlags) -> u32 {
    let w1 = if f.negative { w | 0x8000_0000u32 } else { w & !0x8000_0000u32 };
    let w2 = if f.zero { w1 | 0x4000_0000u32 } else { w1 & !0x4000_0000u32 };
    let w3 = if f.carry { w2 | 0x2000_0000u32 } else { w2 & !0x2000_0000u32 };
    if f.overflow { w3 | 0x1000_0000u32 } else { w3 & !0x1000_0000u32 }
}

/// The status register `xpsr` with its condition flags set from `f`.
pub open spec fn apsr_with_flags(xpsr: Apsr, f: ConditionFlags) -> Apsr {
    le_bytes_u32(flags_word(le_u32(xpsr), f))
}

proof fn lemma_flag_bits(w: u32, n: bool, z: bool, c: bool, v: bool)
    by (bit_vector)
    ensures
        ({
            let w1 = if n { w | 0x8000_0000u32 } else { w & !0x8000_0000u32 };
            let w2 = if z { w1 | 0x4000_0000u32 } else { w1 & !0x4000_0000u32 };
            let w3 = if c { w2 | 0x2000_0000u32 } else { w2 & !0x2000_0000u32 };
            let w4 = if v { w3 | 0x1000_0000u32 } else { w3 & !0x1000_0000u32 };
            &&& (w4 & (1u32 << 31u32) != 0) == n
            &&& (w4 & (1u32 << 30u32) != 0) == z
            &&& (w4 & (1u32 << 29u32) != 0) == c
            &&& (w4 & (1u32 << 28u32) != 0) == v
        }),
{
}

/// The flags written into a status register read back as written: N in
/// bit 31, Z in bit 30, C in bit 29 and V in bit 28.
pub proof fn lemma_flags_read_back(xpsr: Apsr, f: ConditionFlags)
    ensures
        apsr_flag(apsr_with_flags(xpsr, f), 31) == f.negative,
        apsr_flag(apsr_with_flags(xpsr, f), 30) == f.zero,
        apsr_flag(apsr_with_flags(xpsr, f), 29) == f.carry,
        apsr_flag(apsr_with_flags(xpsr, f), 28) == f.overflow,
{
    lemma_le_bytes_u32_roundtrip(flags_word(le_u32(xpsr), f));
    lemma_flag_bits(le_u32(xpsr), f.negative, f.zero, f.carry, f.overflow);
}

/// The word `w` with N and Z set from `value`.
pub open spec fn nz_word(w: u32, value: u32) -> u32 {
    let w1 = if value & 0x8000_0000u32 != 0 { w | 0x8000_0000u32 } else { w & !0x8000_0000u32 };
    if value == 0 { w1 | 0x4000_0000u32 } else { w1 & !0x4000_0000u32 }
}

/// Whether `addr` is a multiple of `size` (a power of two).
pub open spec fn aligned(addr: u32, size: u32) -> bool {
    addr & ((size - 1) as u32) == 0
}

/// Whether `addr` lies in the private peripheral bus, 0xE0000000 to 0xE00FFFFF.
pub open spec fn in_ppb(addr: u32) -> bool {
    0xE000_0000u32 <= addr <= 0xE00F_FFFFu32
}

/// Whether the default memory map forbids executing code at `addr`.
pub open spec fn execute_never(addr: u32) -> bool {
    let sig = (addr & 0xE000_0000u32) >> 29u32;
    sig == 2 || sig >= 5
}

// The attributes of the regions of the default memory map, as bits.
const NORMAL: u8 = 0x1;
const DEVICE: u8 = 0x2;
const DEV_SHARABLE: u8 = 0x4;
const DEV_NON_SHARE: u8 = 0x8;
const EXECUTE_NEVER: u8 = 0x10;
const STRONGLY_ORDERED: u8 = 0x20;

/// The attribute bits of the default memory map at `v_addr`.
pub open spec fn spec_address_map(v_addr: u32) -> u8 {
    if v_addr <= 0x3FFF_FFFFu32 {
        0x1u8
    } else if v_addr <= 0x5FFF_FFFFu32 {
        0x2u8
    } else if v_addr <= 0x9FFF_FFFFu32 {
        0x1u8
    } else if v_addr <= 0xBFFF_FFFFu32 {
        0x14u8
    } else if v_addr <= 0xDFFF_FFFFu32 {
        0x18u8
    } else if v_addr <= 0xE00F_FFFFu32 {
        0x30u8
    } else {
        0x10u8
    }
}

/// Exception number `n` (0 to 47) is pending.
pub open spec fn is_pending(s: ExceptionStatus) -> bool {
    s == ExceptionStatus::Pending || s == ExceptionStatus::ActiveAndPending
}

impl System {
    /// Whether bit 1 of CONTROL selects the process stack pointer.
    pub open spec fn sp_sel(&self) -> bool {
        le_u32(self.control_register) & 2u32 != 0
    }

    /// Whether the current stack pointer can be read: the process stack
    /// pointer is not selected in handler mode.
    pub open spec fn sp_usable(&self) -> bool {
        !(self.sp_sel() && self.mode == Mode::Handler)
    }

    /// The current stack pointer.
    pub open spec fn current_sp(&self) -> u32 {
        if self.sp_sel() {
            self.registers.sp_process
        } else {
            self.registers.sp_main
        }
    }

    /// Whether code runs privileged: in handler mode, or with CONTROL.nPRIV clear.
    pub open spec fn privileged(&self) -> bool {
        self.mode == Mode::Handler || le_u32(self.control_register) & 1u32 == 0
    }

    /// The value register `r` (0 to 15) reads as; the program counter reads
    /// as the word aligned address of the current instruction plus four.
    pub open spec fn reg_value(&self, r: u8) -> u32 {
        if r <= 12 {
            self.registers.generic[r as int]
        } else if r == 13 {
            self.current_sp()
        } else if r == 14 {
            self.registers.lr
        } else {
            ((self.registers.pc + 4) as u32) & 0xFFFF_FFFCu32
        }
    }

    /// A system with `capacity` unused, no memory written but one zeroed
    /// page, all registers zero and no exception active.
    pub fn create(capacity: usize) -> (r: Self)
        ensures
            r.fresh(),
            r.alloc.pages_map() == map![0u32 => [0u8; PAGE_SIZE]],
    {
        Self::with_memory(BlockAllocator::create())
    }

    /// Whether every part of the state but memory is as after `create`.
    pub open spec fn fresh(&self) -> bool {
        &&& forall|i: int| 0 <= i < 13 ==> #[trigger] self.registers.generic[i] == 0
        &&& self.registers.sp_main == 0
        &&& self.registers.sp_process == 0
        &&& self.registers.lr == 0
        &&& self.registers.pc == 0
        &&& le_u32(self.xpsr) == 0
        &&& le_u32(self.control_register) == 0
        &&& !self.event_register
        &&& forall|i: int| 0 <= i < 48 ==> #[trigger] self.active_exceptions[i]
            == ExceptionStatus::Inactive
        &&& self.scs.enabled_interrupts == 0
        &&& self.scs.wfi_wake_up
        &&& self.scs.icsr == 0
        &&& self.scs.vtor == 0
        &&& self.scs.scr == 0
        &&& self.scs.shpr2 == 0
        &&& self.scs.shpr3 == 0
        &&& forall|i: int| 0 <= i < 8 ==> #[trigger] self.scs.ipr[i] == 0
        &&& self.mode == Mode::Thread
        &&& !self.primask
        &&& self.breakpoints@.len() == 0
        &&& !self.trace_enabled
        &&& self.trace@.len() == 0
        &&& self.reset_cfg is None
        &&& self.vtor_override is None
        &&& !self.locked_up
    }

    fn with_memory(alloc: BlockAllocator) -> (r: Self)
        ensures
            r.fresh(),
            r.alloc == alloc,
    {
        let zero4: [u8; 4] = [0u8; 4];
        proof {
            assert(zero4[0] == 0 && zero4[1] == 0 && zero4[2] == 0 && zero4[3] == 0);
            crate::binutils::lemma_bit_constants();
        }
        let r = System {
            registers: Registers::create(),
            xpsr: zero4,
            control_register: zero4,
            event_register: false,
            active_exceptions: [ExceptionStatus::Inactive; 48],
            scs: SystemControlSpace::reset(),
            mode: Mode::Thread,
            primask: false,
            breakpoints: Vec::new(),
            trace_enabled: false,
            trace: String::new(),
            alloc,
            reset_cfg: None,
            vtor_override: None,
            locked_up: false,
        };
        r
    }

    /// A fresh system whose memory holds the sections `sections`, each a
    /// name, a start address and its bytes; a later section overwrites an
    /// earlier one where they overlap.
    pub fn with_sections(sections: Vec<(String, u32, Vec<u8>)>) -> (r: Self)
        requires
            forall|k: int| 0 <= k < sections@.len() ==> #[trigger] sections@[k].1 + sections@[k].2@.len() <= 0x1_0000_0000,
        ensures
            r.fresh(),
            forall|a: int| #[trigger] r.alloc.byte(a) == loaded_byte(sections@, sections@.len() as int, a),
            r.alloc.pages_map().dom() == loaded_pages(sections@, sections@.len() as int),
    {
        let mut alloc = BlockAllocator::init(HashMap::new());
        proof {
            assert(alloc.pages_map().dom() =~= loaded_pages(sections@, 0));
        }
        let mut k: usize = 0;
        while k < sections.len()
            invariant
                k <= sections@.len(),
                forall|j: int| 0 <= j < sections@.len() ==> #[trigger] sections@[j].1 + sections@[j].2@.len() <= 0x1_0000_0000,
                forall|a: int| #[trigger] alloc.byte(a) == loaded_byte(sections@, k as int, a),
                alloc.pages_map().dom() == loaded_pages(sections@, k as int),
            decreases sections@.len() - k,
        {
            let start = sections[k].1;
            let ghost before = alloc.pages_map();
            let ghost old_alloc = alloc;
            proof {
                assert(sections@[k as int].1 + sections@[k as int].2@.len() <= 0x1_0000_0000);
            }
            alloc.map_section(start, sections[k].2.as_slice());
            proof {
                assert forall|a: int| #[trigger] alloc.byte(a) == loaded_byte(sections@, k + 1, a) by {
                    assert(old_alloc.byte(a) == loaded_byte(sections@, k as int, a));
                    assert(byte_in(before, a) == loaded_byte(sections@, k as int, a));
                }
                assert(alloc.pages_map().dom() =~= loaded_pages(sections@, k + 1));
            }
            k = k + 1;
        }
        Self::with_memory(alloc)
    }

    /// A fresh system whose memory holds `text` from address 0.
    pub fn fill_with(text: &[u8]) -> (r: Self)
        requires
            text@.len() <= 0x1_0000_0000,
        ensures
            r.fresh(),
            forall|a: int| 0 <= a < text@.len() ==> #[trigger] r.alloc.byte(a) == text@[a],
            forall|a: int| a < 0 || a >= text@.len() ==> #[trigger] r.alloc.byte(a) == 0,
    {
        Self::with_memory(BlockAllocator::fill(text))
    }
}

/// The byte at address `a` once the first `n` sections are loaded: from the
/// last of them that holds `a`, else zero.
pub open spec fn loaded_byte(secs: Seq<(String, u32, Vec<u8>)>, n: int, a: int) -> u8
    decreases n,
{
    if n <= 0 {
        0
    } else {
        let start = secs[n - 1].1;
        let data = secs[n - 1].2@;
        if start <= a < start + data.len() {
            data[a - start]
        } else {
            loaded_byte(secs, n - 1, a)
        }
    }
}

/// The pages that loading the first `n` sections allocates.
pub open spec fn loaded_pages(secs: Seq<(String, u32, Vec<u8>)>, n: int) -> Set<u32>
    decreases n,
{
    if n <= 0 {
        Set::empty()
    } else {
        loaded_pages(secs, n - 1).union(allocator::section_pages(secs[n - 1].1, secs[n - 1].2@.len()))
    }
}

/// The system `s` with the current stack pointer set to `v`.
pub open spec fn with_sp(s: System, v: u32) -> System {
    if s.sp_sel() {
        System { registers: Registers { sp_process: v, ..s.registers }, ..s }
    } else {
        System { registers: Registers { sp_main: v, ..s.registers }, ..s }
    }
}

/// The word at `addr` of memory, read little endian.
pub open spec fn mem_word(alloc: BlockAllocator, addr: int) -> u32 {
    (alloc.byte(addr) as u32) | ((alloc.byte(addr + 1) as u32) << 8u32) | ((alloc.byte(addr + 2)
        as u32) << 16u32) | ((alloc.byte(addr + 3) as u32) << 24u32)
}

proof fn lemma_word_bytes(w: [u8; 4], b: Seq<u8>)
    requires
        b.len() == 4,
        w@ == b,
    ensures
        le_u32(w) == (b[0] as u32) | ((b[1] as u32) << 8u32) | ((b[2] as u32) << 16u32) | ((b[3]
            as u32) << 24u32),
{
}

impl System {
    /// Sets the four condition flags from `flags`.
    fn update_apsr(&mut self, flags: &ConditionFlags)
        ensures
            *final(self) == (System { xpsr: apsr_with_flags(old(self).xpsr, *flags), ..*old(self) }),
    {
        let mut xpsr = from_arm_bytes(self.xpsr);
        xpsr = if flags.negative { xpsr | 0x8000_0000 } else { xpsr & !0x8000_0000 };
        xpsr = if flags.zero { xpsr | 0x4000_0000 } else { xpsr & !0x4000_0000 };
        xpsr = if flags.carry { xpsr | 0x2000_0000 } else { xpsr & !0x2000_0000 };
        xpsr = if flags.overflow { xpsr | 0x1000_0000 } else { xpsr & !0x1000_0000 };
        self.xpsr = u32_to_arm_bytes(xpsr);
    }

    /// The Thumb bit (T, bit 24) of the execution status register.
    fn epsr_t_bit(&self) -> (r: bool)
        ensures
            r == (le_u32(self.xpsr) & 0x0100_0000u32 != 0),
    {
        (from_arm_bytes(self.xpsr) & 0x0100_0000) != 0
    }

    /// Sets or clears the Thumb bit of the execution status register.
    fn set_epsr_t_bit(&mut self, v: bool)
        ensures
            *final(self) == (System {
                xpsr: le_bytes_u32(
                    if v {
                        le_u32(old(self).xpsr) | 0x0100_0000u32
                    } else {
                        le_u32(old(self).xpsr) & !0x0100_0000u32
                    },
                ),
                ..*old(self)
            }),
    {
        let mut xpsr_val = from_arm_bytes(self.xpsr);
        xpsr_val = if v { xpsr_val | 0x0100_0000 } else { xpsr_val & !0x0100_0000 };
        self.xpsr = u32_to_arm_bytes(xpsr_val);
    }

    /// Whether CONTROL selects the process stack pointer.
    fn sp_select_bit(&self) -> (r: bool)
        ensures
            r == self.sp_sel(),
    {
        (from_arm_bytes(self.control_register) & 0x2) != 0
    }

    /// Selects the process (`true`) or the main stack pointer.
    fn set_sp_select_bit(&mut self, bit: bool)
        ensures
            *final(self) == (System {
                control_register: le_bytes_u32(
                    if bit {
                        le_u32(old(self).control_register) | 2u32
                    } else {
                        le_u32(old(self).control_register) & !2u32
                    },
                ),
                ..*old(self)
            }),
    {
        let mut sp_sel = from_arm_bytes(self.control_register);
        sp_sel = if bit { sp_sel | 0x2 } else { sp_sel & !0x2 };
        self.control_register = u32_to_arm_bytes(sp_sel);
    }

    /// The current stack pointer.
    pub fn get_sp(&self) -> (r: u32)
        requires
            self.sp_usable(),
        ensures
            r == self.current_sp(),
    {
        if self.sp_select_bit() {
            self.registers.sp_process
        } else {
            self.registers.sp_main
        }
    }

    /// Whether the current stack pointer is only 4 byte aligned (bit 2 set).
    pub fn get_sp_frame_alignment(&self) -> (r: bool)
        requires
            self.sp_usable(),
        ensures
            r == (self.current_sp() & 4u32 != 0),
    {
        (self.get_sp() & 0x4) != 0
    }

    /// Sets the current stack pointer, which must be word aligned.
    fn set_sp(&mut self, v: u32) -> (r: Result<(), ArmException>)
        requires
            old(self).sp_usable(),
        ensures
            r is Ok <==> v & 3u32 == 0,
            r matches Err(e) ==> e is HardFault,
            *final(self) == if r is Ok { with_sp(*old(self), v) } else { *old(self) },
    {
        fault_if_not_aligned(v, 4)?;
        if self.sp_select_bit() {
            self.registers.sp_process = v;
        } else {
            self.registers.sp_main = v;
        }
        Ok(())
    }

    /// The value of register `register` (0 to 15).
    fn read_any_register(&self, register: u8) -> (r: u32)
        requires
            register <= 15,
            register == 13 ==> self.sp_usable(),
            register == 15 ==> self.registers.pc + 4 <= usize::MAX,
        ensures
            r == self.reg_value(register),
    {
        if register <= 12 {
            self.registers.generic[register as usize]
        } else if register == 13 {
            self.get_sp()
        } else if register == 14 {
            self.registers.lr
        } else {
            self.read_pc_word_aligned()
        }
    }

    /// Sets the program counter to `addr`, which must be a half word aligned
    /// 32 bit address.
    pub fn set_pc(&mut self, addr: usize) -> (r: Result<(), ArmException>)
        ensures
            r is Ok <==> addr <= u32::MAX && addr % 2 == 0,
            r matches Err(e) ==> e is HardFault,
            *final(self) == if r is Ok {
                System { registers: Registers { pc: addr, ..old(self).registers }, ..*old(self) }
            } else {
                *old(self)
            },
    {
        if addr > 0xFFFF_FFFF {
            return Err(hard_fault("tried to set PC to a value that 32 bits cannot represent"));
        }
        if !is_aligned(addr as u32, 2) {
            proof {
                crate::binutils::lemma_word_facts(addr as u32, 0);
            }
            return Err(hard_fault("the new PC is not 2 byte aligned"));
        }
        proof {
            crate::binutils::lemma_word_facts(addr as u32, 0);
        }
        self.registers.pc = addr;
        Ok(())
    }

    /// The program counter as a 32 bit address.
    pub fn read_raw_ir(&self) -> (r: u32)
        ensures
            r == self.registers.pc as u32,
    {
        self.registers.pc as u32
    }

    /// The program counter as instructions read it: the word aligned address
    /// of the current instruction plus four.
    pub fn read_pc_word_aligned(&self) -> (r: u32)
        requires
            self.registers.pc + 4 <= usize::MAX,
        ensures
            r == ((self.registers.pc + 4) as u32) & 0xFFFF_FFFCu32,
    {
        ((self.registers.pc + 4) as u32) & 0xFFFF_FFFC
    }

    /// Moves the program counter by `offset` bytes, unless the processor is
    /// locked up.
    pub fn offset_pc(&mut self, offset: i32) -> (r: Result<(), ArmException>)
        requires
            !old(self).locked_up ==> 0 <= (old(self).registers.pc as u32) + offset <= u32::MAX,
        ensures
            r is Ok <==> old(self).locked_up || ((old(self).registers.pc as u32) + offset) % 2 == 0,
            r matches Err(e) ==> e is HardFault,
            *final(self) == if !old(self).locked_up && r is Ok {
                System {
                    registers: Registers {
                        pc: ((old(self).registers.pc as u32) + offset) as usize,
                        ..old(self).registers
                    },
                    ..*old(self)
                }
            } else {
                *old(self)
            },
    {
        if self.locked_up {
            return Ok(());
        }
        let new_addr = Self::offset_read_pc(self.registers.pc as u32, offset)?;
        self.registers.pc = new_addr as usize;
        Ok(())
    }

    /// The offset from the program counter to `address` with bit 0 cleared,
    /// as a data processing instruction that writes the PC branches.
    pub fn alu_pc_offset(&self, address: u32) -> (r: i32)
        requires
            i32::MIN <= ((address & 0xFFFF_FFFEu32) as i32) - ((self.registers.pc & 0xFFFF_FFFEusize)
                as i32) <= i32::MAX,
        ensures
            r == ((address & 0xFFFF_FFFEu32) as i32) - ((self.registers.pc & 0xFFFF_FFFEusize) as i32),
    {
        let non_interworking = address & 0xFFFF_FFFE;
        (non_interworking as i32) - ((self.registers.pc & 0xFFFF_FFFE) as i32)
    }

    /// Whether code runs privileged.
    pub(crate) fn in_privileged_mode(&self) -> (r: bool)
        ensures
            r == self.privileged(),
    {
        match self.mode {
            Mode::Handler => true,
            Mode::Thread => (from_arm_bytes(self.control_register) & 0x1) == 0,
        }
    }

    /// `pc + offset`, which must be half word aligned.
    fn offset_read_pc(pc: u32, offset: i32) -> (r: Result<u32, ArmException>)
        requires
            0 <= pc + offset <= u32::MAX,
        ensures
            r is Ok <==> (pc + offset) % 2 == 0,
            r matches Ok(a) ==> a == pc + offset,
            r matches Err(e) ==> e is HardFault,
    {
        let new_addr: u32 = if offset < 0 {
            pc - ((0 - (offset as i64)) as u32)
        } else {
            pc + (offset as u32)
        };
        if !is_aligned(new_addr, 2) {
            proof {
                crate::binutils::lemma_word_facts(new_addr, 0);
            }
            return Err(hard_fault("writes to PC must be 2 byte aligned"));
        }
        proof {
            crate::binutils::lemma_word_facts(new_addr, 0);
        }
        Ok(new_addr)
    }

    /// Stops the processor: the program counter is set to 0xFFFFFFFE and
    /// nothing runs until a reset.
    fn lockup(&mut self)
        ensures
            *final(self) == (System {
                registers: Registers { pc: 0xFFFF_FFFEusize, ..old(self).registers },
                locked_up: true,
                ..*old(self)
            }),
    {
        self.registers.pc = 0xFFFF_FFFE;
        self.locked_up = true;
    }

    /// The number of the exception being handled (IPSR).
    pub fn get_ipsr(&self) -> (r: u32)
        ensures
            r == ipsr_of(self.xpsr),
    {
        from_arm_bytes(self.xpsr) & 0x3F
    }

    /// Clears the exception number of the status register (thread mode only).
    fn reset_ipsr(&mut self)
        requires
            old(self).mode == Mode::Thread,
        ensures
            *final(self) == (System {
                xpsr: le_bytes_u32(le_u32(old(self).xpsr) & IPSR_MASK),
                ..*old(self)
            }),
    {
        let new_xpsr = from_arm_bytes(self.xpsr) & IPSR_MASK;
        self.xpsr = u32_to_arm_bytes(new_xpsr);
    }

    /// Writes the number of `exc_type` into the status register.
    fn set_ipsr(&mut self, exc_type: &ArmException)
        ensures
            *final(self) == (System {
                xpsr: le_bytes_u32(
                    (le_u32(old(self).xpsr) & !0x3Fu32) | (exception_number(*exc_type) & 0x3Fu32),
                ),
                ..*old(self)
            }),
    {
        let mut new_xpsr = from_arm_bytes(self.xpsr);
        let mask: u32 = exc_type.number() & 0x3F;
        new_xpsr = (new_xpsr & !0x3F) | mask;
        self.xpsr = u32_to_arm_bytes(new_xpsr);
    }

    /// CONTROL.nPRIV: whether thread mode runs unprivileged.
    fn get_npriv(&self) -> (r: bool)
        ensures
            r == (le_u32(self.control_register) & 1u32 != 0),
    {
        (from_arm_bytes(self.control_register) & 1) != 0
    }

    /// Whether the program counter is on a breakpoint.
    pub fn on_breakpoint(&self) -> (r: bool)
        ensures
            r == self.breakpoints@.contains(self.registers.pc),
    {
        vec_contains(&self.breakpoints, self.registers.pc)
    }

    /// Adds a breakpoint at `addr`, unless there is one.
    pub fn add_breakpoint(&mut self, addr: u32)
        ensures
            final(self).breakpoints@ == breakpoint_added(old(self).breakpoints@, addr),
            *final(self) == (System { breakpoints: final(self).breakpoints, ..*old(self) }),
    {
        if !vec_contains(&self.breakpoints, addr as usize) {
            self.breakpoints.push(addr as usize);
        }
    }

    /// Whether there is a breakpoint at `addr`.
    pub fn is_breakpoint(&self, addr: u32) -> (r: bool)
        ensures
            r == self.breakpoints@.contains(addr as usize),
    {
        vec_contains(&self.breakpoints, addr as usize)
    }

    /// Removes every breakpoint.
    pub fn clear_breakpoints(&mut self)
        ensures
            final(self).breakpoints@ == Seq::<usize>::empty(),
            *final(self) == (System { breakpoints: final(self).breakpoints, ..*old(self) }),
    {
        self.breakpoints.clear();
    }

    /// Removes the breakpoints at `addr`, keeping the others in order.
    pub fn remove_breakpoint(&mut self, addr: u32)
        ensures
            final(self).breakpoints@ == old(self).breakpoints@.filter(other_than(addr)),
            *final(self) == (System { breakpoints: final(self).breakpoints, ..*old(self) }),
    {
        let mut kept: Vec<usize> = Vec::new();
        let mut i: usize = 0;
        while i < self.breakpoints.len()
            invariant
                i <= self.breakpoints@.len(),
                kept@ == self.breakpoints@.take(i as int).filter(other_than(addr)),
            decreases self.breakpoints@.len() - i,
        {
            let b = self.breakpoints[i];
            if b != addr as usize {
                kept.push(b);
            }
            proof {
                let s = self.breakpoints@.take(i as int + 1);
                assert(s.drop_last() == self.breakpoints@.take(i as int));
                assert(s.last() == b);
                reveal_with_fuel(Seq::filter, 1);
                assert(kept@ == s.filter(other_than(addr)));
            }
            i = i + 1;
        }
        proof {
            assert(self.breakpoints@.take(self.breakpoints@.len() as int) == self.breakpoints@);
        }
        self.breakpoints = kept;
    }

    /// Whether the processor is locked up.
    pub fn is_locked_up(&self) -> (r: bool)
        ensures
            r == self.locked_up,
    {
        self.locked_up
    }

    /// Sets the vector table offset, and keeps it across resets.
    pub fn set_vtor(&mut self, v: u32)
        ensures
            *final(self) == (System {
                vtor_override: Some(v),
                scs: SystemControlSpace { vtor: v, ..old(self).scs },
                ..*old(self)
            }),
    {
        self.vtor_override = Some(v);
        self.scs.vtor = v;
    }

    /// Whether an access of kind `acc` to `addr` is allowed. Under the
    /// default memory map everything is readable and writable, and the
    /// execute never regions cannot be executed.
    pub fn check_permission(&self, addr: u32, acc: Access) -> (r: Result<(), ArmException>)
        ensures
            r is Err <==> acc == Access::Execute && execute_never(addr),
            r matches Err(e) ==> e is HardFault,
    {
        let (attributes, exec_never) = self.get_permissions(addr);
        let level = if self.in_privileged_mode() {
            attributes.privileged
        } else {
            attributes.unprivileged
        };
        match acc {
            Access::READ => match level {
                AccessPermission::NoAccess => Err(hard_fault("invalid attempt to read")),
                _ => Ok(()),
            },
            Access::WRITE => match level {
                AccessPermission::NoAccess | AccessPermission::ReadOnly => Err(
                    hard_fault("invalid attempt to write"),
                ),
                _ => Ok(()),
            },
            Access::Execute => if exec_never {
                Err(hard_fault("cannot execute an instruction that is marked as XN"))
            } else {
                match level {
                    AccessPermission::NoAccess => Err(hard_fault("invalid attempt to execute")),
                    _ => Ok(()),
                }
            },
        }
    }

    /// The permissions at `addr` and whether it is execute never.
    pub fn get_permissions(&self, addr: u32) -> (r: (MemPermission, bool))
        ensures
            r == (spec_full_access(), execute_never(addr)),
    {
        self.default_permissions(addr)
    }

    /// The permissions of the default memory map at `addr`: full access
    /// everywhere, and the execute never flag of its region.
    pub fn default_permissions(&self, addr: u32) -> (r: (MemPermission, bool))
        ensures
            r == (spec_full_access(), execute_never(addr)),
    {
        let sig: u32 = (addr & 0xE000_0000) >> 29;
        proof {
            crate::binutils::lemma_word_facts(addr, 0);
        }
        match sig {
            0 => (MemPermission::full_access(), false),
            1 => (MemPermission::full_access(), false),
            2 => (MemPermission::full_access(), true),
            3 => (MemPermission::full_access(), false),
            4 => (MemPermission::full_access(), false),
            _ => (MemPermission::full_access(), true),
        }
    }
}

/// The addresses other than `addr`.
pub open spec fn other_than(addr: u32) -> spec_fn(usize) -> bool {
    |b: usize| b != addr as usize
}

/// The breakpoints `bps` after one at `addr` is added: unchanged where
/// there is one, else `addr` appended.
pub open spec fn breakpoint_added(bps: Seq<usize>, addr: u32) -> Seq<usize> {
    if bps.contains(addr as usize) {
        bps
    } else {
        bps.push(addr as usize)
    }
}

/// After a breakpoint is added at `addr` there is one there, the others are
/// as they were, adding it again changes nothing, and a list without
/// repeats stays without them.
pub proof fn lemma_add_breakpoint(bps: Seq<usize>, addr: u32)
    ensures
        breakpoint_added(bps, addr).contains(addr as usize),
        forall|b: usize| #[trigger] breakpoint_added(bps, addr).contains(b) <==> (bps.contains(b) || b == addr as usize),
        breakpoint_added(breakpoint_added(bps, addr), addr) == breakpoint_added(bps, addr),
        bps.no_duplicates() ==> breakpoint_added(bps, addr).no_duplicates(),
{
    let n = breakpoint_added(bps, addr);
    if !bps.contains(addr as usize) {
        assert(n[bps.len() as int] == addr as usize);
        assert forall|b: usize| #[trigger] n.contains(b) implies (bps.contains(b) || b == addr as usize) by {
            let i = choose|i: int| 0 <= i < n.len() && n[i] == b;
            if i < bps.len() {
                assert(bps[i] == b);
            }
        }
        assert forall|b: usize| bps.contains(b) implies #[trigger] n.contains(b) by {
            let i = choose|i: int| 0 <= i < bps.len() && bps[i] == b;
            assert(n[i] == b);
        }
    }
}

/// After the breakpoints at `addr` are removed there is none there, and the
/// others are as they were.
pub proof fn lemma_remove_breakpoint(bps: Seq<usize>, addr: u32)
    ensures
        !bps.filter(other_than(addr)).contains(addr as usize),
        forall|b: usize| b != addr as usize ==> (#[trigger] bps.filter(other_than(addr)).contains(b) <==> bps.contains(b)),
{
    broadcast use vstd::seq_lib::group_filter_ensures;
    let f = bps.filter(other_than(addr));
    assert forall|b: usize| b != addr as usize implies (#[trigger] f.contains(b) <==> bps.contains(b)) by {
        if bps.contains(b) {
            let i = choose|i: int| 0 <= i < bps.len() && bps[i] == b;
            assert(other_than(addr)(bps[i]));
        }
        if f.contains(b) {
            bps.lemma_filter_contains_rev(other_than(addr), b);
        }
    }
    if f.contains(addr as usize) {
        let i = choose|i: int| 0 <= i < f.len() && f[i] == addr as usize;
        assert(other_than(addr)(f[i]));
    }
}

/// Whether `v` holds `x`.
fn vec_contains(v: &Vec<usize>, x: usize) -> (r: bool)
    ensures
        r == v@.contains(x),
{
    let mut i: usize = 0;
    while i < v.len()
        invariant
            i <= v@.len(),
            forall|k: int| 0 <= k < i ==> v@[k] != x,
        decreases v@.len() - i,
    {
        if v[i] == x {
            return true;
        }
        i = i + 1;
    }
    false
}

/// A HardFault with the message `msg`.
fn hard_fault(msg: &str) -> (r: ArmException)
    ensures
        r matches ArmException::HardFault(m) && m@ == msg@,
{
    ArmException::HardFault(String::from_str(msg))
}

impl ArmException {
    /// The exception that `sys` is handling, named by the exception number
    /// in its program status register.
    pub fn from_xpsr(sys: &System) -> (r: Option<Self>)
        ensures
            r is None <==> exceptions::is_reserved_number(ipsr_of(sys.xpsr)),
            r matches Some(e) ==> exception_number(e) == ipsr_of(sys.xpsr),
            r matches Some(ArmException::HardFault(msg)) ==> msg@ == Seq::<char>::empty(),
    {
        let ipsr = from_arm_bytes(sys.xpsr) & 0x3F;
        Self::from_exception_number(ipsr)
    }
}

/// Whether thread mode runs privileged (CONTROL.nPRIV clear).
pub fn is_thread_privileged(sys: &System) -> (r: bool)
    ensures
        r == (le_u32(sys.control_register) & 1u32 == 0),
{
    let v = from_arm_bytes(sys.control_register);
    (v & 1) == 0
}

/// The number of the exception being handled.
pub fn get_exception_number(sys: &System) -> (r: u32)
    ensures
        r == ipsr_of(sys.xpsr),
{
    from_arm_bytes(sys.xpsr) & 0x3F
}

/// Whether data accesses are little endian; this processor is always so.
fn is_system_in_le_mode(_sys: &System) -> (r: bool)
    ensures
        r,
{
    true
}

/// A HardFault unless `addr` is a multiple of `alignment_in_bytes`.
fn fault_if_not_aligned(addr: u32, alignment_in_bytes: usize) -> (r: Result<(), ArmException>)
    requires
        1 <= alignment_in_bytes <= u32::MAX,
    ensures
        r is Ok <==> aligned(addr, alignment_in_bytes as u32),
        r matches Err(e) ==> e is HardFault,
{
    if !is_aligned(addr, alignment_in_bytes as u32) {
        Err(hard_fault("address is not correctly aligned for the access"))
    } else {
        Ok(())
    }
}

/// Whether `v_addr` is a multiple of `size`, a power of two.
fn is_aligned(v_addr: u32, size: u32) -> (r: bool)
    requires
        size >= 1,
    ensures
        r == aligned(v_addr, size),
{
    let mask: u32 = size - 1;
    v_addr & mask == 0
}

/// A HardFault if code cannot be executed at `addr` under the default
/// memory map.
fn assert_executable(addr: u32) -> (r: Result<(), ArmException>)
    ensures
        r is Ok <==> spec_address_map(addr) & 0x10u8 == 0,
        r matches Err(e) ==> e is HardFault,
{
    if default_address_map(addr) & EXECUTE_NEVER != 0 {
        Err(hard_fault("cannot execute code at an execute never address"))
    } else {
        Ok(())
    }
}

/// Whether `v_addr` lies in the private peripheral bus.
fn is_region_ppb(v_addr: u32) -> (r: bool)
    ensures
        r == in_ppb(v_addr),
{
    0xE000_0000 <= v_addr && v_addr <= 0xE00F_FFFF
}

/// The attributes of the default memory map at `v_addr`.
fn default_address_map(v_addr: u32) -> (r: u8)
    ensures
        r == spec_address_map(v_addr),
{
    proof {
        crate::binutils::lemma_bit_constants();
    }
    if v_addr <= 0x3FFF_FFFF {
        NORMAL
    } else if v_addr <= 0x5FFF_FFFF {
        DEVICE
    } else if v_addr <= 0x9FFF_FFFF {
        NORMAL
    } else if v_addr <= 0xBFFF_FFFF {
        DEV_SHARABLE | EXECUTE_NEVER
    } else if v_addr <= 0xDFFF_FFFF {
        DEV_NON_SHARE | EXECUTE_NEVER
    } else if v_addr <= 0xE00F_FFFF {
        STRONGLY_ORDERED | EXECUTE_NEVER
    } else {
        EXECUTE_NEVER
    }
}

/// A register of the system control space that the simulator implements.
#[allow(non_camel_case_types)]
#[derive(Clone, Copy, Debug, PartialEq, Eq, Structural)]
pub enum MemoryMappedRegister {
    nvic_iser,
    nvic_icer,
    nvic_ispr,
    nvic_icpr,
    nvic_ipr(u8),
    icsr,
    vtor,
    aircr,
    scr,
    ccr,
    shpr2,
    shpr3,
}

/// The register at `address` of the private peripheral bus, if the
/// simulator implements one there.
pub open spec fn mmr_at(address: u32) -> Option<MemoryMappedRegister> {
    if address == 0xE000_E100u32 {
        Some(MemoryMappedRegister::nvic_iser)
    } else if address == 0xE000_E180u32 {
        Some(MemoryMappedRegister::nvic_icer)
    } else if address == 0xE000_E200u32 {
        Some(MemoryMappedRegister::nvic_ispr)
    } else if address == 0xE000_E280u32 {
        Some(MemoryMappedRegister::nvic_icpr)
    } else if 0xE000_E400u32 <= address <= 0xE000_E41Cu32 {
        Some(MemoryMappedRegister::nvic_ipr(((address - 0xE000_E400u32) / 4) as u8))
    } else if address == 0xE000_ED04u32 {
        Some(MemoryMappedRegister::icsr)
    } else if address == 0xE000_ED08u32 {
        Some(MemoryMappedRegister::vtor)
    } else if address == 0xE000_ED0Cu32 {
        Some(MemoryMappedRegister::aircr)
    } else if address == 0xE000_ED10u32 {
        Some(MemoryMappedRegister::scr)
    } else if address == 0xE000_ED14u32 {
        Some(MemoryMappedRegister::ccr)
    } else if address == 0xE000_ED1Cu32 {
        Some(MemoryMappedRegister::shpr2)
    } else if address == 0xE000_ED20u32 {
        Some(MemoryMappedRegister::shpr3)
    } else {
        None
    }
}

/// The pending bits of the external interrupts below `n`: bit `i` is set
/// when exception `16 + i` is pending.
pub open spec fn pending_bits(ex: [ExceptionStatus; 48], n: nat) -> u32
    decreases n,
{
    if n == 0 || n > 32 {
        0
    } else {
        pending_bits(ex, (n - 1) as nat) | if is_pending(ex[16 + n - 1]) {
            1u32 << ((n - 1) as u32)
        } else {
            0u32
        }
    }
}

/// The value register `reg` reads as.
pub open spec fn mmr_value(sys: System, reg: MemoryMappedRegister) -> u32 {
    match reg {
        MemoryMappedRegister::icsr => sys.scs.icsr,
        MemoryMappedRegister::vtor => 0,
        MemoryMappedRegister::aircr => 0,
        MemoryMappedRegister::scr => 0,
        MemoryMappedRegister::ccr => 0x208,
        MemoryMappedRegister::shpr2 => sys.scs.shpr2,
        MemoryMappedRegister::shpr3 => sys.scs.shpr3,
        MemoryMappedRegister::nvic_iser => sys.scs.enabled_interrupts,
        MemoryMappedRegister::nvic_icer => sys.scs.enabled_interrupts,
        MemoryMappedRegister::nvic_ispr => pending_bits(sys.active_exceptions, 32),
        MemoryMappedRegister::nvic_icpr => pending_bits(sys.active_exceptions, 32),
        MemoryMappedRegister::nvic_ipr(i) => sys.scs.ipr[i as int],
    }
}

/// Whether register `reg` is one of those that `read` and `update` accept:
/// an interrupt priority register must be one of the eight.
pub open spec fn mmr_valid(reg: MemoryMappedRegister) -> bool {
    match reg {
        MemoryMappedRegister::nvic_ipr(i) => i < 8,
        _ => true,
    }
}

impl MemoryMappedRegister {
    /// The register at `address`, which the simulator must implement.
    pub fn from_address(address: u32) -> (r: Option<MemoryMappedRegister>)
        requires
            mmr_at(address) is Some,
        ensures
            r == mmr_at(address),
            r matches Some(reg) && mmr_valid(reg),
    {
        if address == 0xE000_E100 {
            Some(Self::nvic_iser)
        } else if address == 0xE000_E180 {
            Some(Self::nvic_icer)
        } else if address == 0xE000_E200 {
            Some(Self::nvic_ispr)
        } else if address == 0xE000_E280 {
            Some(Self::nvic_icpr)
        } else if 0xE000_E400 <= address && address <= 0xE000_E41C {
            let offset = address - 0xE000_E400;
            let index = offset / 4;
            Some(Self::nvic_ipr(index as u8))
        } else if address == 0xE000_ED04 {
            Some(Self::icsr)
        } else if address == 0xE000_ED08 {
            Some(Self::vtor)
        } else if address == 0xE000_ED0C {
            Some(Self::aircr)
        } else if address == 0xE000_ED10 {
            Some(Self::scr)
        } else if address == 0xE000_ED14 {
            Some(Self::ccr)
        } else if address == 0xE000_ED1C {
            Some(Self::shpr2)
        } else {
            Some(Self::shpr3)
        }
    }

    /// The pending bits of the 32 external interrupts.
    pub fn pending_external_interrupts(sys: &System) -> (r: u32)
        ensures
            r == pending_bits(sys.active_exceptions, 32),
    {
        let mut pending: u32 = 0;
        let mut i: usize = 0;
        while i < 32
            invariant
                i <= 32,
                pending == pending_bits(sys.active_exceptions, i as nat),
            decreases 32 - i,
        {
            match sys.active_exceptions[16 + i] {
                ExceptionStatus::Pending | ExceptionStatus::ActiveAndPending => {
                    pending = pending | (1u32 << (i as u32));
                },
                _ => {
                    proof {
                        crate::binutils::lemma_word_facts(pending, 0);
                    }
                },
            }
            i = i + 1;
        }
        pending
    }

    /// The value the register reads as.
    pub fn read(&self, sys: &System) -> (r: u32)
        requires
            mmr_valid(*self),
        ensures
            r == mmr_value(*sys, *self),
    {
        match self {
            MemoryMappedRegister::icsr => sys.scs.icsr,
            MemoryMappedRegister::vtor => 0,
            MemoryMappedRegister::aircr => 0,
            MemoryMappedRegister::scr => 0,
            MemoryMappedRegister::ccr => 0x208,
            MemoryMappedRegister::shpr2 => sys.scs.shpr2,
            MemoryMappedRegister::shpr3 => sys.scs.shpr3,
            MemoryMappedRegister::nvic_iser => sys.scs.enabled_interrupts,
            MemoryMappedRegister::nvic_icer => sys.scs.enabled_interrupts,
            MemoryMappedRegister::nvic_ispr => Self::pending_external_interrupts(sys),
            MemoryMappedRegister::nvic_icpr => Self::pending_external_interrupts(sys),
            MemoryMappedRegister::nvic_ipr(i) => sys.scs.ipr[*i as usize],
        }
    }

    /// Whether SCR.SEVONPEND is set: an interrupt that becomes pending sets
    /// the event register.
    pub fn sev_on_pend_enabled(scs: &SystemControlSpace) -> (r: bool)
        ensures
            r == (scs.scr & 0x10u32 != 0),
    {
        (scs.scr & 0x10) != 0
    }
}

/// What a load of `n` bytes at `addr` gives, or `None` where it faults:
/// words of the implemented system registers on the private peripheral
/// bus, aligned bytes of memory elsewhere.
pub open spec fn spec_load(sys: System, addr: u32, n: nat) -> Option<Seq<u8>> {
    if in_ppb(addr) {
        if n == 4 && aligned(addr, 4) {
            Some(le_bytes_u32(mmr_value(sys, mmr_at(addr)->0))@)
        } else {
            None
        }
    } else if aligned(addr, n as u32) {
        Some(bytes_in(sys.alloc.pages_map(), addr as int, n))
    } else {
        None
    }
}

/// Whether a load of `n` bytes at `addr` runs without a simulator error:
/// a word of the private peripheral bus must be an implemented register,
/// and an aligned access must stay within a page.
pub open spec fn load_defined(addr: u32, n: nat) -> bool {
    &&& 1 <= n <= u32::MAX
    &&& in_ppb(addr) && n == 4 && aligned(addr, 4) ==> mmr_at(addr) is Some
    &&& !in_ppb(addr) && aligned(addr, n as u32) ==> offset_of(addr as int) + n <= PAGE_SIZE
}

/// Loads `T` bytes from `v_addr`: a HardFault where the address is not
/// aligned to the access, or on the private peripheral bus is not an
/// aligned word.
pub fn load_memory<const T: usize>(sys: &System, v_addr: u32) -> (r: Result<[u8; T], ArmException>)
    requires
        load_defined(v_addr, T as nat),
    ensures
        r is Ok <==> spec_load(*sys, v_addr, T as nat) is Some,
        r matches Ok(bytes) ==> bytes@ == spec_load(*sys, v_addr, T as nat)->0,
        r matches Err(e) ==> e is HardFault,
{
    if is_region_ppb(v_addr) {
        if T == 4 {
            let v = load_memory_mapped_register(sys, v_addr)?;
            let mem_arr = u32_to_arm_bytes(v);
            let mut mem: [u8; T] = [0u8; T];
            let mut i: usize = 0;
            while i < T
                invariant
                    T == 4,
                    i <= T,
                    forall|k: int| 0 <= k < i ==> #[trigger] mem[k] == mem_arr[k],
                decreases T - i,
            {
                mem[i] = mem_arr[i];
                i = i + 1;
            }
            proof {
                assert(mem@ =~= mem_arr@);
            }
            Ok(mem)
        } else {
            Err(hard_fault("reads from the private peripheral bus must be word aligned"))
        }
    } else {
        fault_if_not_aligned(v_addr, T)?;
        sys.check_permission(v_addr, Access::READ)?;
        Ok(sys.alloc.get::<T>(v_addr))
    }
}

/// Loads a half word of an instruction from `v_addr`: a HardFault where it
/// is not half word aligned or lies in an execute never region.
pub fn load_thumb_instr(sys: &System, v_addr: u32) -> (r: Result<[u8; 2], ArmException>)
    ensures
        r is Ok <==> aligned(v_addr, 2) && !execute_never(v_addr),
        r matches Ok(hw) ==> hw@ == bytes_in(sys.alloc.pages_map(), v_addr as int, 2),
        r matches Err(e) ==> e is HardFault,
{
    fault_if_not_aligned(v_addr, 2)?;
    sys.check_permission(v_addr, Access::Execute)?;
    proof {
        crate::binutils::lemma_word_facts(v_addr, 0);
    }
    Ok(sys.alloc.get::<2>(v_addr))
}

/// The four bytes of a 32 bit instruction at `addr`, as `get_instr_32b`
/// fetches them.
pub open spec fn instr_word(alloc: BlockAllocator, addr: u32) -> Seq<u8> {
    if alloc.pages_map().contains_key(addr / (PAGE_SIZE as u32)) {
        bytes_in(alloc.pages_map(), addr as int, 4)
    } else {
        seq![0u8, 0u8, 0u8, 0u8]
    }
}

/// Loads the four bytes of a 32 bit instruction at `addr`.
fn load_instr_32b(sys: &System, addr: u32) -> (r: Result<[u8; 4], ArmException>)
    ensures
        r is Ok <==> aligned(addr, 2) && !execute_never(addr),
        r matches Ok(w) ==> w@ == instr_word(sys.alloc, addr),
        r matches Err(e) ==> e is HardFault,
{
    fault_if_not_aligned(addr, 2)?;
    sys.check_permission(addr, Access::Execute)?;
    proof {
        crate::binutils::lemma_word_facts(addr, 0);
    }
    Ok(sys.alloc.get_instr_32b(addr))
}

/// Reads the system register at `address`, which must be word aligned.
fn load_memory_mapped_register(sys: &System, address: u32) -> (r: Result<u32, ArmException>)
    requires
        in_ppb(address),
        aligned(address, 4) ==> mmr_at(address) is Some,
    ensures
        r is Ok <==> aligned(address, 4),
        r matches Ok(v) ==> v == mmr_value(*sys, mmr_at(address)->0),
        r matches Err(e) ==> e is HardFault,
{
    fault_if_not_aligned(address, 4)?;
    let system_register = MemoryMappedRegister::from_address(address);
    match system_register {
        Some(reg) => Ok(reg.read(sys)),
        None => Err(hard_fault("no such system register")),
    }
}

/// The status of an exception after it is made pending.
pub open spec fn set_pend(s: ExceptionStatus) -> ExceptionStatus {
    match s {
        ExceptionStatus::Inactive => ExceptionStatus::Pending,
        ExceptionStatus::Active => ExceptionStatus::ActiveAndPending,
        other => other,
    }
}

/// The status of an exception after its pending state is cleared.
pub open spec fn clear_pend(s: ExceptionStatus) -> ExceptionStatus {
    match s {
        ExceptionStatus::Pending => ExceptionStatus::Inactive,
        ExceptionStatus::ActiveAndPending => ExceptionStatus::Active,
        other => other,
    }
}

/// The priority group of exception number `n`, as `priority_group` gives it.
pub open spec fn number_priority(scs: SystemControlSpace, n: u32) -> i32 {
    if n == 1 {
        -3i32
    } else if n == 2 {
        -2i32
    } else if n == 3 {
        -1i32
    } else if n == 11 {
        ((scs.shpr2 & 0xC000_0000u32) >> 30u32) as i32
    } else if n == 14 {
        ((scs.shpr3 & 0x00C0_0000u32) >> 22u32) as i32
    } else if n == 15 {
        ((scs.shpr3 & 0xC000_0000u32) >> 30u32) as i32
    } else {
        exceptions::spec_nvic_priority(scs.ipr, n)
    }
}

/// Whether exception number `i` (below 48) is active.
pub open spec fn is_active(s: ExceptionStatus) -> bool {
    s == ExceptionStatus::Active || s == ExceptionStatus::ActiveAndPending
}

/// Looks from exception `i` on for an active exception of lower priority
/// than `pri`: `Some(true)` if there is one, `None` where a reserved number
/// is active before one is found.
pub open spec fn wake_scan(ex: Seq<ExceptionStatus>, scs: SystemControlSpace, pri: i32, i: nat) -> Option<bool>
    decreases 48 - i,
{
    if i >= 48 {
        Some(false)
    } else if is_active(ex[i as int]) {
        if exceptions::is_reserved_number(i as u32) {
            None
        } else if pri < number_priority(scs, i as u32) {
            Some(true)
        } else {
            wake_scan(ex, scs, pri, i + 1)
        }
    } else {
        wake_scan(ex, scs, pri, i + 1)
    }
}

/// The lowest priority among the interrupts below `n` that a write of `v`
/// to ISPR makes pending from inactive.
pub open spec fn newly_pending_priority(ex: Seq<ExceptionStatus>, scs: SystemControlSpace, v: u32, n: nat) -> Option<i32>
    decreases n,
{
    if n == 0 || n > 32 {
        None
    } else {
        let i = (n - 1) as nat;
        let rest = newly_pending_priority(ex, scs, v, i);
        if v & (1u32 << (i as u32)) != 0 && ex[16 + i as int] == ExceptionStatus::Inactive {
            let p = exceptions::spec_nvic_priority(scs.ipr, (16 + i) as u32);
            match rest {
                Some(q) => Some(if q <= p { q } else { p }),
                None => Some(p),
            }
        } else {
            rest
        }
    }
}

/// The exception statuses after a write of `v` to ISPR (`set`) or ICPR.
pub open spec fn pend_by_bits(ex: Seq<ExceptionStatus>, v: u32, set: bool) -> Seq<ExceptionStatus> {
    Seq::new(
        48,
        |i: int|
            if 16 <= i < 48 && v & (1u32 << ((i - 16) as u32)) != 0 {
                if set {
                    set_pend(ex[i])
                } else {
                    clear_pend(ex[i])
                }
            } else {
                ex[i]
            },
    )
}

/// Whether an interrupt made pending by a write of `v` to ISPR was inactive.
pub open spec fn ispr_sets_inactive(ex: Seq<ExceptionStatus>, v: u32) -> bool {
    exists|i: int| 0 <= i < 32 && v & (1u32 << (i as u32)) != 0 && #[trigger] ex[16 + i] == ExceptionStatus::Inactive
}

/// The vector table address that a reset uses.
pub open spec fn reset_vtor(sys: System) -> u32 {
    match sys.vtor_override {
        Some(v) => v,
        None => 0,
    }
}

/// What a word of the system control space reads as right after a reset.
pub open spec fn mmr_reset_value(reg: MemoryMappedRegister) -> u32 {
    match reg {
        MemoryMappedRegister::ccr => 0x208,
        _ => 0,
    }
}

/// The word at `addr` as a reset reads it: memory, or a register of the
/// system control space in its reset state.
pub open spec fn reset_word(sys: System, addr: u32) -> u32 {
    if in_ppb(addr) {
        mmr_reset_value(mmr_at(addr)->0)
    } else {
        mem_word(sys.alloc, addr as int)
    }
}

/// Whether a reset runs without a simulator error: without reset values
/// given, the first two words of the vector table must be readable.
pub open spec fn reset_defined(sys: System) -> bool {
    sys.reset_cfg is None ==> {
        let vtor = reset_vtor(sys);
        &&& vtor <= u32::MAX - 4
        &&& aligned(vtor, 4)
        &&& in_ppb(vtor) ==> mmr_at(vtor) is Some
        &&& in_ppb((vtor + 4) as u32) ==> mmr_at((vtor + 4) as u32) is Some
    }
}

/// `new` is `old` after a reset: thread mode, no exception active or
/// pending, the control registers in their reset state, and the main stack
/// pointer and program counter from the reset values or the vector table.
pub open spec fn reset_post(old: System, new: System) -> bool {
    let vtor = reset_vtor(old);
    let (sp, pc) = match old.reset_cfg {
        Some(cfg) => (cfg.sp_reset_val, cfg.reset_hander_ptr),
        None => (reset_word(old, vtor), reset_word(old, (vtor + 4) as u32) & !1u32),
    };
    &&& !new.locked_up
    &&& new.mode == Mode::Thread
    &&& new.xpsr == le_bytes_u32(le_u32(old.xpsr) & IPSR_MASK)
    &&& !new.primask
    &&& le_u32(new.control_register) == 0
    &&& new.scs.enabled_interrupts == 0 && new.scs.wfi_wake_up && new.scs.icsr == 0
    &&& new.scs.vtor == vtor && new.scs.aircr == 0 && new.scs.scr == 0 && new.scs.ccr == 0x108
    &&& new.scs.shpr2 == 0 && new.scs.shpr3 == 0
    &&& forall|i: int| 0 <= i < 8 ==> #[trigger] new.scs.ipr[i] == 0
    &&& forall|i: int| 0 <= i < 48 ==> #[trigger] new.active_exceptions[i] == ExceptionStatus::Inactive
    &&& !new.event_register
    &&& new.registers == Registers { sp_main: sp, pc: pc as usize, ..old.registers }
    &&& new.trace@ == if old.trace_enabled {
        old.trace@ + "====SYSTEM RESET OCCURED====\n"@
    } else {
        old.trace@
    }
    &&& new == System {
        xpsr: new.xpsr,
        control_register: new.control_register,
        event_register: new.event_register,
        active_exceptions: new.active_exceptions,
        scs: new.scs,
        mode: new.mode,
        primask: new.primask,
        registers: new.registers,
        trace: new.trace,
        locked_up: new.locked_up,
        ..old
    }
}

/// `new` is `old` after the write of `v` to system register `reg`.
pub open spec fn mmr_update_post(old: System, new: System, reg: MemoryMappedRegister, v: u32) -> bool {
    let ex = old.active_exceptions@;
    match reg {
        MemoryMappedRegister::icsr => {
            let pendsv = if v & 0x1000_0000u32 != 0 { set_pend(ex[14]) } else { ex[14] };
            let systick = if v & 0x0400_0000u32 != 0 { set_pend(ex[15]) } else { ex[15] };
            &&& new.active_exceptions@ == ex.update(
                2,
                if v & 0x8000_0000u32 != 0 { ExceptionStatus::Pending } else { ex[2] },
            ).update(14, if v & 0x0800_0000u32 != 0 { clear_pend(pendsv) } else { pendsv }).update(
                15,
                if v & 0x0200_0000u32 != 0 { clear_pend(systick) } else { systick },
            )
            &&& new.event_register == (old.event_register || (v & 0x1000_0000u32 != 0 && ex[14]
                == ExceptionStatus::Inactive && old.scs.scr & 0x10u32 != 0))
            &&& new == System {
                active_exceptions: new.active_exceptions,
                event_register: new.event_register,
                scs: SystemControlSpace {
                    icsr: v,
                    wfi_wake_up: old.scs.wfi_wake_up || v & 0x8000_0000u32 != 0,
                    ..old.scs
                },
                ..old
            }
        },
        MemoryMappedRegister::aircr => if v & 4u32 != 0 {
            reset_post(old, new)
        } else {
            new == old
        },
        MemoryMappedRegister::scr => new == System { scs: SystemControlSpace { scr: v, ..old.scs }, ..old },
        MemoryMappedRegister::shpr2 => new == System {
            scs: SystemControlSpace { shpr2: v & 0xC000_0000u32, ..old.scs },
            ..old
        },
        MemoryMappedRegister::shpr3 => new == System {
            scs: SystemControlSpace { shpr3: v & 0xC0C0_0000u32, ..old.scs },
            ..old
        },
        MemoryMappedRegister::nvic_iser => new == System {
            scs: SystemControlSpace { enabled_interrupts: v, ..old.scs },
            ..old
        },
        MemoryMappedRegister::nvic_icer => new == System {
            scs: SystemControlSpace { enabled_interrupts: old.scs.enabled_interrupts ^ v, ..old.scs },
            ..old
        },
        MemoryMappedRegister::nvic_ispr => {
            let ex2 = pend_by_bits(ex, v, true);
            let wake = match newly_pending_priority(ex, old.scs, v, 32) {
                Some(pri) => wake_scan(ex2, old.scs, pri, 0) == Some(true),
                None => false,
            };
            &&& new.active_exceptions@ == ex2
            &&& new.event_register == (old.event_register || (old.scs.scr & 0x10u32 != 0
                && ispr_sets_inactive(ex, v)))
            &&& new == System {
                active_exceptions: new.active_exceptions,
                event_register: new.event_register,
                scs: SystemControlSpace { wfi_wake_up: old.scs.wfi_wake_up || wake, ..old.scs },
                ..old
            }
        },
        MemoryMappedRegister::nvic_icpr => {
            &&& new.active_exceptions@ == pend_by_bits(ex, v, false)
            &&& new == System { active_exceptions: new.active_exceptions, ..old }
        },
        MemoryMappedRegister::nvic_ipr(i) => {
            &&& new.scs.ipr@ == old.scs.ipr@.update(i as int, v & 0xC0C0_C0C0u32)
            &&& new == System { scs: SystemControlSpace { ipr: new.scs.ipr, ..old.scs }, ..old }
        },
        _ => new == old,
    }
}

/// Whether the write of `v` to system register `reg` runs without a
/// simulator error: a reset must be defined, and an ISPR write that wakes
/// the processor must not meet an active reserved exception number.
pub open spec fn mmr_update_defined(sys: System, reg: MemoryMappedRegister, v: u32) -> bool {
    &&& mmr_valid(reg)
    &&& reg == MemoryMappedRegister::aircr && v & 4u32 != 0 ==> reset_defined(sys)
    &&& reg == MemoryMappedRegister::nvic_ispr ==> match newly_pending_priority(
        sys.active_exceptions@,
        sys.scs,
        v,
        32,
    ) {
        Some(pri) => wake_scan(pend_by_bits(sys.active_exceptions@, v, true), sys.scs, pri, 0) is Some,
        None => true,
    }
}

/// The word of four little endian bytes.
pub open spec fn word_of(b: Seq<u8>) -> u32 {
    (b[0] as u32) | ((b[1] as u32) << 8u32) | ((b[2] as u32) << 16u32) | ((b[3] as u32) << 24u32)
}

/// Whether a write of `values` at `addr` runs without a simulator error:
/// a privileged aligned word write to the private peripheral bus must reach
/// an implemented register and be defined there, and an aligned write
/// elsewhere must stay within a page.
pub open spec fn write_defined(sys: System, addr: u32, values: Seq<u8>) -> bool {
    &&& 1 <= values.len() <= u32::MAX
    &&& in_ppb(addr) && values.len() == 4 && sys.privileged() && aligned(addr, 4) ==> {
        &&& mmr_at(addr) is Some
        &&& mmr_update_defined(sys, mmr_at(addr)->0, word_of(values))
    }
    &&& !in_ppb(addr) && aligned(addr, values.len() as u32) ==> offset_of(addr as int) + values.len()
        <= PAGE_SIZE
}

/// Whether a write of `values` at `addr` succeeds: a privileged aligned word
/// on the private peripheral bus, or aligned bytes elsewhere.
pub open spec fn write_ok(sys: System, addr: u32, values: Seq<u8>) -> bool {
    if in_ppb(addr) {
        values.len() == 4 && sys.privileged() && aligned(addr, 4)
    } else {
        aligned(addr, values.len() as u32)
    }
}

/// `new` is `old` after a successful write of `values` at `addr`.
pub open spec fn write_post(old: System, new: System, addr: u32, values: Seq<u8>) -> bool {
    if in_ppb(addr) {
        mmr_update_post(old, new, mmr_at(addr)->0, word_of(values))
    } else {
        &&& written(old.alloc.pages_map(), new.alloc.pages_map(), addr as int, values)
        &&& new.alloc.pages_map().dom() == old.alloc.pages_map().dom().insert(
            addr / (PAGE_SIZE as u32),
        )
        &&& new == System { alloc: new.alloc, ..old }
    }
}

/// Memory outside the private peripheral bus reads back what was written
/// there: after a successful store, a load of the same bytes gives them,
/// and a load that does not overlap the store gives what it gave before.
pub proof fn lemma_load_after_write(old: System, new: System, addr: u32, values: Seq<u8>, other: u32, n: nat)
    requires
        !in_ppb(addr),
        write_ok(old, addr, values),
        write_post(old, new, addr, values),
    ensures
        spec_load(new, addr, values.len()) == Some(values),
        !in_ppb(other) && (other + n <= addr || addr + values.len() <= other) ==> spec_load(new, other, n) == spec_load(old, other, n),
{
    lemma_read_after_write(old.alloc.pages_map(), new.alloc.pages_map(), addr as int, values);
    if !in_ppb(other) && (other + n <= addr || addr + values.len() <= other) {
        lemma_write_leaves_others(old.alloc.pages_map(), new.alloc.pages_map(), addr as int, values, other as int, n);
    }
}

proof fn lemma_pending_bits_none(ex: [ExceptionStatus; 48], n: nat)
    requires
        forall|i: int| 0 <= i < 48 ==> #[trigger] ex[i] == ExceptionStatus::Inactive,
    ensures
        pending_bits(ex, n) == 0,
    decreases n,
{
    if n > 0 && n <= 32 {
        lemma_pending_bits_none(ex, (n - 1) as nat);
        crate::binutils::lemma_bit_constants();
    }
}

proof fn lemma_exception_priority(e: ArmException, scs: SystemControlSpace, n: u32)
    requires
        exception_number(e) == n,
        e matches ArmException::ExternInterrupt(m) ==> m >= 16,
    ensures
        spec_priority_group(e, scs) == number_priority(scs, n),
{
}

impl System {
    /// Resets the processor: thread mode, no exception active or pending,
    /// the system control space in its reset state, and the main stack
    /// pointer and program counter from the reset values or else from the
    /// first two words of the vector table.
    pub fn reset(&mut self)
        requires
            reset_defined(*old(self)),
        ensures
            reset_post(*old(self), *final(self)),
    {
        let ghost old_sys = *self;
        self.locked_up = false;
        self.mode = Mode::Thread;
        self.reset_ipsr();
        self.primask = false;
        let zero4: [u8; 4] = [0u8; 4];
        proof {
            assert(zero4[0] == 0 && zero4[1] == 0 && zero4[2] == 0 && zero4[3] == 0);
            crate::binutils::lemma_bit_constants();
        }
        self.control_register = zero4;
        self.scs = SystemControlSpace::reset();
        self.active_exceptions = [ExceptionStatus::Inactive; 48];
        self.event_register = false;
        match self.vtor_override {
            Some(v) => {
                self.scs.vtor = v;
            },
            None => {},
        }
        let (main_sp_reset_val, reset_handler_ptr): (u32, u32) = match self.reset_cfg {
            Some(cfg) => (cfg.sp_reset_val, cfg.reset_hander_ptr),
            None => {
                let vtor = self.scs.vtor;
                proof {
                    lemma_pending_bits_none(self.active_exceptions, 32);
                    crate::binutils::lemma_word_facts(vtor, 0);
                }
                let sp = match load_memory::<4>(self, vtor) {
                    Ok(b) => from_arm_bytes(b),
                    Err(_) => {
                        proof {
                            assert(false);
                        }
                        0
                    },
                };
                let pc = match load_memory::<4>(self, vtor + 4) {
                    Ok(b) => from_arm_bytes(b) & !1u32,
                    Err(_) => {
                        proof {
                            assert(false);
                        }
                        0
                    },
                };
                proof {
                    if in_ppb(vtor) {
                        lemma_le_bytes_u32_roundtrip(mmr_value(*self, mmr_at(vtor)->0));
                    }
                    if in_ppb((vtor + 4) as u32) {
                        lemma_le_bytes_u32_roundtrip(mmr_value(*self, mmr_at((vtor + 4) as u32)->0));
                    }
                }
                (sp, pc)
            },
        };
        self.registers.sp_main = main_sp_reset_val;
        self.registers.pc = reset_handler_ptr as usize;
        if self.trace_enabled {
            self.trace.append("====SYSTEM RESET OCCURED====\n");
        }
    }
}

impl MemoryMappedRegister {
    /// Writes `v` to the register and carries out what the write requests:
    /// setting and clearing pending exceptions, a system reset, priorities
    /// and enabled interrupts.
    pub fn update(&self, sys: &mut System, v: u32)
        requires
            mmr_update_defined(*old(sys), *self, v),
        ensures
            mmr_update_post(*old(sys), *final(sys), *self, v),
    {
        match self {
            MemoryMappedRegister::icsr => {
                update_icsr(sys, v);
            },
            MemoryMappedRegister::vtor => {},
            MemoryMappedRegister::aircr => {
                if v & 0x4 != 0 {
                    sys.reset();
                }
            },
            MemoryMappedRegister::scr => {
                sys.scs.scr = v;
            },
            MemoryMappedRegister::ccr => {},
            MemoryMappedRegister::shpr2 => {
                sys.scs.shpr2 = v & 0xC000_0000;
            },
            MemoryMappedRegister::shpr3 => {
                sys.scs.shpr3 = v & 0xC0C0_0000;
            },
            MemoryMappedRegister::nvic_iser => {
                sys.scs.enabled_interrupts = v;
            },
            MemoryMappedRegister::nvic_icer => {
                sys.scs.enabled_interrupts = sys.scs.enabled_interrupts ^ v;
            },
            MemoryMappedRegister::nvic_ispr => {
                update_ispr(sys, v);
            },
            MemoryMappedRegister::nvic_icpr => {
                update_icpr(sys, v);
            },
            MemoryMappedRegister::nvic_ipr(i) => {
                let priority_bits = v & 0xC0C0_C0C0;
                sys.scs.ipr[*i as usize] = priority_bits;
            },
        }
    }
}

/// The status of an exception after it is made pending.
fn pended(s: ExceptionStatus) -> (r: ExceptionStatus)
    ensures
        r == set_pend(s),
{
    match s {
        ExceptionStatus::Inactive => ExceptionStatus::Pending,
        ExceptionStatus::Active => ExceptionStatus::ActiveAndPending,
        other => other,
    }
}

/// The status of an exception after its pending state is cleared.
fn unpended(s: ExceptionStatus) -> (r: ExceptionStatus)
    ensures
        r == clear_pend(s),
{
    match s {
        ExceptionStatus::Pending => ExceptionStatus::Inactive,
        ExceptionStatus::ActiveAndPending => ExceptionStatus::Active,
        other => other,
    }
}

/// A write of `v` to ICSR: NMI, PendSV and SysTick are set or cleared
/// pending as its bits ask.
fn update_icsr(sys: &mut System, v: u32)
    ensures
        mmr_update_post(*old(sys), *final(sys), MemoryMappedRegister::icsr, v),
{
    let ghost old_sys = *sys;
    let nmi = ArmException::Nmi.number() as usize;
    let pendsv = ArmException::PendSV.number() as usize;
    let systick = ArmException::SysTick.number() as usize;
    let nmi_set = v & 0x8000_0000 != 0;
    let pendsv_set = v & 0x1000_0000 != 0;
    let pendsv_clear = v & 0x0800_0000 != 0;
    let systick_set = v & 0x0400_0000 != 0;
    let systick_clear = v & 0x0200_0000 != 0;
    let old_pendsv = sys.active_exceptions[pendsv];
    let old_systick = sys.active_exceptions[systick];
    let s2 = if nmi_set {
        ExceptionStatus::Pending
    } else {
        sys.active_exceptions[nmi]
    };
    let p1 = if pendsv_set {
        pended(old_pendsv)
    } else {
        old_pendsv
    };
    let s14 = if pendsv_clear {
        unpended(p1)
    } else {
        p1
    };
    let t1 = if systick_set {
        pended(old_systick)
    } else {
        old_systick
    };
    let s15 = if systick_clear {
        unpended(t1)
    } else {
        t1
    };
    if pendsv_set && old_pendsv == ExceptionStatus::Inactive
        && MemoryMappedRegister::sev_on_pend_enabled(&sys.scs) {
        sys.event_register = true;
    }
    if nmi_set {
        sys.scs.wfi_wake_up = true;
    }
    sys.active_exceptions[nmi] = s2;
    sys.active_exceptions[pendsv] = s14;
    sys.active_exceptions[systick] = s15;
    sys.scs.icsr = v;
    proof {
        assert(sys.active_exceptions@ =~= old_sys.active_exceptions@.update(2, s2).update(14, s14).update(
            15,
            s15,
        ));
    }
}

/// A write of `v` to ICPR: clears the pending state of the interrupts
/// whose bits are set.
fn update_icpr(sys: &mut System, v: u32)
    ensures
        mmr_update_post(*old(sys), *final(sys), MemoryMappedRegister::nvic_icpr, v),
{
    let ghost old_sys = *sys;
    let ghost ex0 = sys.active_exceptions@;
    let mut i: usize = 0;
    while i < 32
        invariant
            i <= 32,
            ex0 == old_sys.active_exceptions@,
            forall|k: int|
                0 <= k < 48 ==> #[trigger] sys.active_exceptions@[k] == if 16 <= k < 16 + i && v & (
                1u32 << ((k - 16) as u32)) != 0 {
                    clear_pend(ex0[k])
                } else {
                    ex0[k]
                },
            *sys == (System { active_exceptions: sys.active_exceptions, ..old_sys }),
        decreases 32 - i,
    {
        if (v & (1u32 << (i as u32))) != 0 {
            match sys.active_exceptions[16 + i] {
                ExceptionStatus::Pending => {
                    sys.active_exceptions[16 + i] = ExceptionStatus::Inactive;
                },
                ExceptionStatus::ActiveAndPending => {
                    sys.active_exceptions[16 + i] = ExceptionStatus::Active;
                },
                _ => {},
            }
        }
        i = i + 1;
    }
    proof {
        assert(sys.active_exceptions@ =~= pend_by_bits(ex0, v, false));
    }
}

/// A write of `v` to ISPR: makes the interrupts whose bits are set pending,
/// sets the event register if SEVONPEND asks for it, and wakes the
/// processor if a newly pending interrupt would preempt an active one.
fn update_ispr(sys: &mut System, v: u32)
    requires
        mmr_update_defined(*old(sys), MemoryMappedRegister::nvic_ispr, v),
    ensures
        mmr_update_post(*old(sys), *final(sys), MemoryMappedRegister::nvic_ispr, v),
{
    let ghost old_sys = *sys;
    let ghost ex0 = sys.active_exceptions@;
    let mut max_pending_prio: Option<i32> = None;
    let mut i: usize = 0;
    while i < 32
        invariant
            i <= 32,
            ex0 == old_sys.active_exceptions@,
            forall|k: int|
                0 <= k < 48 ==> #[trigger] sys.active_exceptions@[k] == if 16 <= k < 16 + i && v & (
                1u32 << ((k - 16) as u32)) != 0 {
                    set_pend(ex0[k])
                } else {
                    ex0[k]
                },
            max_pending_prio == newly_pending_priority(ex0, old_sys.scs, v, i as nat),
            sys.event_register == (old_sys.event_register || (old_sys.scs.scr & 0x10u32 != 0
                && exists|j: int|
                0 <= j < i && v & (1u32 << (j as u32)) != 0 && #[trigger] ex0[16 + j]
                    == ExceptionStatus::Inactive)),
            *sys == (System {
                active_exceptions: sys.active_exceptions,
                event_register: sys.event_register,
                ..old_sys
            }),
        decreases 32 - i,
    {
        if (v & (1u32 << (i as u32))) != 0 {
            match sys.active_exceptions[16 + i] {
                ExceptionStatus::Active => {
                    sys.active_exceptions[16 + i] = ExceptionStatus::ActiveAndPending;
                },
                ExceptionStatus::Inactive => {
                    sys.active_exceptions[16 + i] = ExceptionStatus::Pending;
                    if MemoryMappedRegister::sev_on_pend_enabled(&sys.scs) {
                        sys.event_register = true;
                    }
                    let int_prio = sys.scs.nvic_priority_of(i as u32 + 16);
                    max_pending_prio = match max_pending_prio {
                        Some(p) => Some(if p <= int_prio { p } else { int_prio }),
                        None => Some(int_prio),
                    };
                },
                _ => {},
            }
        }
        i = i + 1;
    }
    let ghost ex2 = sys.active_exceptions@;
    let ghost mid = *sys;
    proof {
        assert(ex2 =~= pend_by_bits(ex0, v, true));
        assert(ispr_sets_inactive(ex0, v) == exists|k: int|
            0 <= k < 32 && v & (1u32 << (k as u32)) != 0 && #[trigger] ex0[16 + k]
                == ExceptionStatus::Inactive);
    }
    match max_pending_prio {
        Some(pri) => {
            let mut j: usize = 0;
            while j < 48
                invariant
                    j <= 48,
                    ex2 == sys.active_exceptions@,
                    ex2 == pend_by_bits(ex0, v, true),
                    wake_scan(ex2, old_sys.scs, pri, 0) == wake_scan(ex2, old_sys.scs, pri, j as nat),
                    wake_scan(ex2, old_sys.scs, pri, 0) is Some,
                    *sys == mid,
                    old_sys == *old(sys),
                    mid.scs == old_sys.scs,
                    ex0 == old_sys.active_exceptions@,
                    newly_pending_priority(ex0, old_sys.scs, v, 32) == Some(pri),
                    sys.event_register == (old_sys.event_register || (old_sys.scs.scr & 0x10u32 != 0
                        && ispr_sets_inactive(ex0, v))),
                    mid == (System {
                        active_exceptions: mid.active_exceptions,
                        event_register: mid.event_register,
                        ..old_sys
                    }),
                decreases 48 - j,
            {
                match sys.active_exceptions[j] {
                    ExceptionStatus::Active | ExceptionStatus::ActiveAndPending => {
                        let active = match ArmException::from_exception_number(j as u32) {
                            Some(e) => e,
                            None => {
                                proof {
                                    assert(false);
                                }
                                ArmException::Reset
                            },
                        };
                        proof {
                            lemma_exception_priority(active, old_sys.scs, j as u32);
                        }
                        if pri < active.priority_group(&sys.scs) {
                            sys.scs.wfi_wake_up = true;
                            proof {
                                assert(wake_scan(ex2, old_sys.scs, pri, j as nat) == Some(true));
                            }
                            return;
                        }
                    },
                    _ => {},
                }
                j = j + 1;
            }
            proof {
                assert(wake_scan(ex2, old_sys.scs, pri, 48) == Some(false));
            }
        },
        None => {},
    }
}

/// Writes `v` to the system register at `address`: a HardFault unless the
/// code runs privileged and the address is word aligned.
fn write_to_memory_mapped_register(sys: &mut System, address: u32, v: u32) -> (r: Result<(), ArmException>)
    requires
        in_ppb(address),
        old(sys).privileged() && aligned(address, 4) ==> {
            &&& mmr_at(address) is Some
            &&& mmr_update_defined(*old(sys), mmr_at(address)->0, v)
        },
    ensures
        r is Ok <==> old(sys).privileged() && aligned(address, 4),
        r matches Err(e) ==> e is HardFault && *final(sys) == *old(sys),
        r is Ok ==> mmr_update_post(*old(sys), *final(sys), mmr_at(address)->0, v),
{
    if !sys.in_privileged_mode() {
        return Err(hard_fault("access to the private peripheral bus must be privileged"));
    }
    fault_if_not_aligned(address, 4)?;
    match MemoryMappedRegister::from_address(address) {
        Some(reg) => {
            reg.update(sys, v);
            Ok(())
        },
        None => Err(hard_fault("no such system register")),
    }
}

/// Writes the `T` bytes `value` at `v_addr`: to a system register for a
/// privileged aligned word on the private peripheral bus, to memory for an
/// aligned access elsewhere, and a HardFault otherwise.
pub fn write_memory<const T: usize>(sys: &mut System, v_addr: u32, value: [u8; T]) -> (r: Result<(), ArmException>)
    requires
        write_defined(*old(sys), v_addr, value@),
    ensures
        r is Ok <==> write_ok(*old(sys), v_addr, value@),
        r matches Err(e) ==> e is HardFault && *final(sys) == *old(sys),
        r is Ok ==> write_post(*old(sys), *final(sys), v_addr, value@),
{
    if is_region_ppb(v_addr) {
        if T == 4 {
            let mem: [u8; 4] = [value[0], value[1], value[2], value[3]];
            let word = from_arm_bytes(mem);
            proof {
                assert(mem@ =~= value@);
                lemma_word_bytes(mem, value@);
            }
            write_to_memory_mapped_register(sys, v_addr, word)
        } else {
            Err(hard_fault("writes to the private peripheral bus must be word aligned"))
        }
    } else {
        fault_if_not_aligned(v_addr, T)?;
        sys.check_permission(v_addr, Access::WRITE)?;
        sys.alloc.put::<T>(v_addr, value);
        Ok(())
    }
}

} // verus!
