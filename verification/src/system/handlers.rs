//! Taking exceptions and returning from them: priorities, the stacked
//! context frame and the vector table.
use vstd::prelude::*;
use vstd::string::StringExecFns;
use crate::binutils::{from_arm_bytes, u32_to_arm_bytes, le_u32, le_bytes_u32, lemma_le_bytes_u32_roundtrip};
use super::registers::Registers;
use super::allocator::{written, bytes_in, byte_in, offset_of, PAGE_SIZE};
use super::exceptions::{
    exception_number, is_reserved_number, spec_priority_group, has_priority, SystemControlSpace,
};
use super::{
    System, Mode, ArmException, ExceptionStatus, number_priority, ipsr_of, in_ppb, aligned,
    spec_load, load_defined, write_post, write_ok, write_defined, with_sp, mem_word, load_memory,
    write_memory, hard_fault, lemma_exception_priority, is_active, word_of,
};

verus! {

/// The highest priority (lowest number) among the exceptions below `n` that
/// are active, or 4 where none is.
pub open spec fn active_min(ex: Seq<ExceptionStatus>, scs: SystemControlSpace, n: nat) -> i32
    decreases n,
{
    if n == 0 || n > 48 {
        4
    } else {
        let r = active_min(ex, scs, (n - 1) as nat);
        if ex[n - 1] == ExceptionStatus::Active {
            let p = number_priority(scs, (n - 1) as u32);
            if p < r {
                p
            } else {
                r
            }
        } else {
            r
        }
    }
}

/// No reserved exception number is active.
pub open spec fn actives_valid(ex: Seq<ExceptionStatus>) -> bool {
    forall|i: int|
        0 <= i < 48 && #[trigger] ex[i] == ExceptionStatus::Active ==> !is_reserved_number(i as u32)
}

/// The execution priority: that of the highest priority active exception,
/// boosted to 0 by PRIMASK, and 4 when nothing is active.
pub open spec fn spec_execution_priority(ex: Seq<ExceptionStatus>, primask: bool, scs: SystemControlSpace) -> i32 {
    let boosted: i32 = if primask { 0 } else { 4 };
    let cur = active_min(ex, scs, 48);
    if boosted < cur {
        boosted
    } else {
        cur
    }
}

/// The `n` bytes at `a` lie outside the private peripheral bus.
pub open spec fn outside_ppb(a: u32, n: nat) -> bool {
    a + n <= 0x1_0000_0000 && (a + n <= 0xE000_0000 || a > 0xE00F_FFFFu32)
}

/// The little endian bytes of the words `w`.
pub open spec fn words_bytes(w: Seq<u32>) -> Seq<u8> {
    Seq::new(4 * w.len(), |i: int| le_bytes_u32(w[i / 4])[i % 4])
}

/// The pages that the `n` words at `a` touch.
pub open spec fn word_pages(a: u32, n: nat) -> Set<u32> {
    Set::new(|p: u32| exists|k: int| 0 <= k < n && p == #[trigger] ((a + 4 * k) as u32 / (PAGE_SIZE as u32)))
}

/// The return address that an exception stacks.
pub open spec fn stacked_return(s: System, exc: ArmException) -> u32 {
    let pc = s.registers.pc as u32;
    if exc is HardFault {
        pc
    } else {
        ((pc + 2) as u32) & 0xFFFF_FFFEu32
    }
}

/// The eight words of the context frame an exception stacks: r0 to r3,
/// r12, LR, the return address and the status register, whose bit 9 tells
/// whether the stack pointer was only 4 byte aligned.
pub open spec fn frame_words(s: System, exc: ArmException) -> Seq<u32> {
    let g = s.registers.generic;
    let x = le_u32(s.xpsr);
    let xpsr = if s.current_sp() & 4u32 != 0 {
        x | 0x200u32
    } else {
        x & !0x200u32
    };
    seq![g[0], g[1], g[2], g[3], g[12], s.registers.lr, stacked_return(s, exc), xpsr]
}

/// The EXC_RETURN value an exception entry puts in LR.
pub open spec fn exc_return_lr(s: System) -> u32 {
    if s.mode == Mode::Handler {
        0xFFFF_FFF1
    } else if s.sp_sel() {
        0xFFFF_FFFD
    } else {
        0xFFFF_FFF9
    }
}

/// Whether stacking the context frame runs without a simulator error.
pub open spec fn save_defined(s: System, exc: ArmException) -> bool {
    let sp = s.current_sp();
    &&& s.sp_usable()
    &&& !(exc is Reset)
    &&& (s.registers.pc as u32) + 2 <= u32::MAX
    &&& sp >= 32 && aligned((sp - 32) as u32, 4) ==> outside_ppb((sp - 32) as u32, 32)
}

/// Whether stacking the context frame succeeds: the frame fits below the
/// stack pointer and is word aligned.
pub open spec fn save_ok(s: System) -> bool {
    let sp = s.current_sp();
    sp >= 32 && aligned((sp - 32) as u32, 4)
}

/// `new` is `old` after its context frame was stacked for `exc`.
pub open spec fn save_post(old: System, new: System, exc: ArmException) -> bool {
    let fp = (old.current_sp() - 32) as u32;
    let s1 = with_sp(old, fp & !4u32);
    &&& written(old.alloc.pages_map(), new.alloc.pages_map(), fp as int, words_bytes(frame_words(old, exc)))
    &&& new.alloc.pages_map().dom() == old.alloc.pages_map().dom().union(word_pages(fp, 8))
    &&& new == System {
        registers: Registers { lr: exc_return_lr(old), ..s1.registers },
        alloc: new.alloc,
        ..old
    }
}

pub(crate) proof fn lemma_frame_step(m0: Map<u32, super::Page>, m1: Map<u32, super::Page>, m2: Map<u32, super::Page>, fp: u32, w: Seq<u32>, k: int)
    requires
        0 <= k < w.len(),
        written(m0, m1, fp as int, words_bytes(w.take(k))),
        written(m1, m2, fp + 4 * k, le_bytes_u32(w[k])@),
    ensures
        written(m0, m2, fp as int, words_bytes(w.take(k + 1))),
{
    let b1 = words_bytes(w.take(k));
    let b2 = words_bytes(w.take(k + 1));
    assert forall|a: int| #![trigger byte_in(m2, a)] byte_in(m2, a) == if fp <= a < fp + b2.len() {
        b2[a - fp]
    } else {
        byte_in(m0, a)
    } by {
        if fp + 4 * k <= a < fp + 4 * k + 4 {
            assert(b2[a - fp] == le_bytes_u32(w[k])[a - fp - 4 * k]);
        } else if fp <= a < fp + 4 * k {
            assert(b2[a - fp] == b1[a - fp]);
        }
    }
}

impl System {
    /// The execution priority, with `primask` for PRIMASK and `scs` for the
    /// configured priorities.
    pub(crate) fn execution_priority(&self, primask: bool, scs: &SystemControlSpace) -> (r: i32)
        requires
            actives_valid(self.active_exceptions@),
        ensures
            r == spec_execution_priority(self.active_exceptions@, primask, *scs),
    {
        let mut cur_priority: i32 = 4;
        let boosted_priority: i32 = if primask { 0 } else { 4 };
        let mut i: usize = 0;
        while i < 48
            invariant
                i <= 48,
                actives_valid(self.active_exceptions@),
                cur_priority == active_min(self.active_exceptions@, *scs, i as nat),
            decreases 48 - i,
        {
            match self.active_exceptions[i] {
                ExceptionStatus::Active => {
                    let exception = match ArmException::from_exception_number(i as u32) {
                        Some(e) => e,
                        None => {
                            proof {
                                assert(false);
                            }
                            ArmException::Reset
                        },
                    };
                    proof {
                        lemma_exception_priority(exception, *scs, i as u32);
                    }
                    let exc_priority = exception.priority_group(scs);
                    cur_priority = if exc_priority < cur_priority { exc_priority } else { cur_priority };
                },
                _ => {},
            }
            i = i + 1;
        }
        if boosted_priority < cur_priority {
            boosted_priority
        } else {
            cur_priority
        }
    }

    /// Makes exception `exc` pending.
    pub fn set_exc_pending(&mut self, exc: ArmException)
        requires
            exception_number(exc) < 48,
        ensures
            final(self).active_exceptions@ == old(self).active_exceptions@.update(
                exception_number(exc) as int,
                ExceptionStatus::Pending,
            ),
            *final(self) == (System { active_exceptions: final(self).active_exceptions, ..*old(self) }),
    {
        let n = exc.number();
        self.active_exceptions[n as usize] = ExceptionStatus::Pending;
    }

    /// Sets the Thumb bit from bit 0 of `addr` and gives the offset from the
    /// program counter to `addr` with bit 0 cleared; a HardFault where bit 0
    /// is clear, since only Thumb code can run.
    pub(crate) fn blx_interworking_offset(&mut self, addr: u32) -> (r: Result<i32, ArmException>)
        requires
            addr & 1u32 != 0 ==> i32::MIN <= ((addr & 0xFFFF_FFFEu32) as i32) - (old(self).registers.pc
                as i32) <= i32::MAX,
        ensures
            *final(self) == (System {
                xpsr: le_bytes_u32(
                    if addr & 1u32 != 0 {
                        le_u32(old(self).xpsr) | 0x0100_0000u32
                    } else {
                        le_u32(old(self).xpsr) & !0x0100_0000u32
                    },
                ),
                ..*old(self)
            }),
            r is Ok <==> addr & 1u32 != 0,
            r matches Ok(off) ==> off == ((addr & 0xFFFF_FFFEu32) as i32) - (old(self).registers.pc as i32),
            r matches Err(e) ==> e is HardFault,
    {
        let bit = (addr & 0x1) != 0;
        self.set_epsr_t_bit(bit);
        if !bit {
            return Err(hard_fault("EPSR.T bit set to 0, the address is not interworking but should be"));
        }
        Ok(((addr & 0xFFFF_FFFE) as i32) - (self.registers.pc as i32))
    }
}

/// The address of the vector of exception number `n`.
pub open spec fn vector_addr(s: System, n: u32) -> int {
    s.scs.vtor + 4 * n
}

/// Whether branching to the handler of `exc` runs without a simulator
/// error; the vector table must lie outside the private peripheral bus.
pub open spec fn jump_defined(s: System, exc: ArmException) -> bool {
    let n = exception_number(exc);
    let addr = vector_addr(s, n);
    let w = mem_word(s.alloc, addr);
    &&& n < 48
    &&& addr <= u32::MAX
    &&& !in_ppb(addr as u32)
    &&& aligned(addr as u32, 4) && w & 1u32 != 0 ==> i32::MIN <= ((w & 0xFFFF_FFFEu32) as i32) - (
    s.registers.pc as i32) <= i32::MAX
}

/// `new` is `old` after entering the handler of `exc`, with result `r`:
/// handler mode, IPSR set, the main stack selected, the exception active,
/// and the branch to the handler address read from the vector table.
pub open spec fn jump_post(old: System, new: System, exc: ArmException, r: Result<i32, ArmException>) -> bool {
    let n = exception_number(exc);
    let addr = vector_addr(old, n) as u32;
    let w = mem_word(old.alloc, addr as int);
    let x1 = (le_u32(old.xpsr) & !0x3Fu32) | (n & 0x3Fu32);
    &&& new.mode == Mode::Handler
    &&& new.control_register == le_bytes_u32(le_u32(old.control_register) & !2u32)
    &&& new.active_exceptions@ == old.active_exceptions@.update(n as int, ExceptionStatus::Active)
    &&& new.scs == (SystemControlSpace { icsr: old.scs.icsr | n, ..old.scs })
    &&& if !aligned(addr, 4) {
        &&& r matches Err(e) && e is HardFault
        &&& new.xpsr == le_bytes_u32(x1)
        &&& new.event_register == old.event_register
    } else {
        &&& new.event_register
        &&& new.xpsr == le_bytes_u32(
            if w & 1u32 != 0 {
                x1 | 0x0100_0000u32
            } else {
                x1 & !0x0100_0000u32
            },
        )
        &&& r is Ok <==> w & 1u32 != 0
        &&& r matches Ok(off) ==> off == ((w & 0xFFFF_FFFEu32) as i32) - (old.registers.pc as i32)
        &&& r matches Err(e) ==> e is HardFault
    }
    &&& new == System {
        mode: new.mode,
        control_register: new.control_register,
        active_exceptions: new.active_exceptions,
        scs: new.scs,
        xpsr: new.xpsr,
        event_register: new.event_register,
        ..old
    }
}

proof fn lemma_frame_addr(fp: u32, k: u32)
    by (bit_vector)
    requires
        fp & 3u32 == 0,
        k < 8,
        fp <= 0xFFFF_FFFFu32 - 28,
    ensures
        (fp + 4 * k) as u32 & 3u32 == 0,
        ((fp + 4 * k) as u32) % 2048 + 4 <= 2048,
        (fp & !4u32) & 3u32 == 0,
{
}

pub(crate) proof fn lemma_word_read(w: [u8; 4], m: super::BlockAllocator, addr: u32)
    requires
        w@ == bytes_in(m.pages_map(), addr as int, 4),
    ensures
        le_u32(w) == mem_word(m, addr as int),
{
    assert(w[0] == m.byte(addr as int) && w[1] == m.byte(addr + 1) && w[2] == m.byte(addr + 2)
        && w[3] == m.byte(addr + 3));
}

impl System {
    /// Enters the handler of `exc_type`: handler mode, IPSR set to its
    /// number, the main stack selected, the exception active, and the offset
    /// to the handler address read from the vector table.
    pub(crate) fn jump_to_exception(&mut self, exc_type: &ArmException) -> (r: Result<i32, ArmException>)
        requires
            jump_defined(*old(self), *exc_type),
        ensures
            jump_post(*old(self), *final(self), *exc_type, r),
    {
        let ghost old_sys = *self;
        self.mode = Mode::Handler;
        self.set_ipsr(exc_type);
        self.set_sp_select_bit(false);
        let n = exc_type.number();
        self.active_exceptions[n as usize] = ExceptionStatus::Active;
        self.scs.set_vec_active(n);
        let vector_table = self.scs.vtor;
        let handler_addr = vector_table + (4 * n);
        proof {
            crate::binutils::lemma_word_facts(handler_addr, 0);
            lemma_le_bytes_u32_roundtrip((le_u32(old_sys.xpsr) & !0x3Fu32) | (n & 0x3Fu32));
        }
        let bytes = match load_memory::<4>(self, handler_addr) {
            Ok(b) => b,
            Err(e) => {
                return Err(e);
            },
        };
        let handler_ptr = from_arm_bytes(bytes);
        proof {
            lemma_word_read(bytes, self.alloc, handler_addr);
        }
        self.event_register = true;
        self.blx_interworking_offset(handler_ptr)
    }

    /// Stacks the context frame of `exc_type` below the current stack
    /// pointer and puts the EXC_RETURN value in LR; a HardFault where the
    /// frame does not fit or is not word aligned.
    pub(crate) fn save_context_frame(&mut self, exc_type: &ArmException) -> (r: Result<(), ArmException>)
        requires
            save_defined(*old(self), *exc_type),
        ensures
            r is Ok <==> save_ok(*old(self)),
            r matches Err(e) ==> e is HardFault && *final(self) == *old(self),
            r is Ok ==> save_post(*old(self), *final(self), *exc_type),
    {
        let ghost old_sys = *self;
        let sp = self.get_sp();
        let mut xpsr = from_arm_bytes(self.xpsr);
        proof {
            crate::binutils::lemma_bit_constants();
        }
        xpsr = if self.get_sp_frame_alignment() {
            xpsr | (1u32 << 9)
        } else {
            xpsr & !(1u32 << 9)
        };
        let next_instr_address = exc_type.return_address(self.registers.pc as u32, true);
        // The frame holds eight words.
        let offset: u32 = 32;
        let maybe_frame_ptr = sp.checked_sub(offset);
        let frame_ptr = match maybe_frame_ptr {
            Some(p) => p,
            None => {
                return Err(hard_fault("stack frame pointer overflowed during exception entry"));
            },
        };
        proof {
            crate::binutils::lemma_word_facts(frame_ptr, 0);
        }
        self.set_sp(frame_ptr & !0x4)?;
        let frame: [u32; 8] = [
            self.registers.generic[0],
            self.registers.generic[1],
            self.registers.generic[2],
            self.registers.generic[3],
            self.registers.generic[12],
            self.registers.lr,
            next_instr_address,
            xpsr,
        ];
        let ghost words = frame_words(old_sys, *exc_type);
        let ghost s1 = *self;
        let ghost m0 = old_sys.alloc.pages_map();
        proof {
            assert(frame@ =~= words);
            assert(words_bytes(words.take(0)) =~= Seq::<u8>::empty());
            assert(written(m0, m0, frame_ptr as int, Seq::<u8>::empty()));
            assert(m0.dom() =~= m0.dom().union(word_pages(frame_ptr, 0)));
        }
        let mut k: u32 = 0;
        while k < 8
            invariant
                k <= 8,
                frame@ == words,
                aligned(frame_ptr, 4),
                frame_ptr <= 0xFFFF_FFFFu32 - 28,
                outside_ppb(frame_ptr, 32),
                m0 == old_sys.alloc.pages_map(),
                written(m0, self.alloc.pages_map(), frame_ptr as int, words_bytes(words.take(k as int))),
                self.alloc.pages_map().dom() == m0.dom().union(word_pages(frame_ptr, k as nat)),
                *self == (System { alloc: self.alloc, ..s1 }),
            decreases 8 - k,
        {
            proof {
                lemma_frame_addr(frame_ptr, k);
            }
            let addr = frame_ptr + 4 * k;
            let ghost before = self.alloc.pages_map();
            let bytes = u32_to_arm_bytes(frame[k as usize]);
            match write_memory(self, addr, bytes) {
                Ok(_) => {},
                Err(e) => {
                    proof {
                        assert(false);
                    }
                    return Err(e);
                },
            }
            proof {
                lemma_frame_step(m0, before, self.alloc.pages_map(), frame_ptr, words, k as int);
                assert(self.alloc.pages_map().dom() =~= m0.dom().union(word_pages(frame_ptr, (k + 1) as nat)))
                    by {
                    assert forall|p: u32| word_pages(frame_ptr, (k + 1) as nat).contains(p) implies
                        word_pages(frame_ptr, k as nat).contains(p) || p == addr / (PAGE_SIZE as u32) by {
                    }
                    assert(word_pages(frame_ptr, (k + 1) as nat).contains(addr / (PAGE_SIZE as u32))) by {
                        assert(addr / (PAGE_SIZE as u32) == ((frame_ptr + 4 * (k as int)) as u32 / (
                        PAGE_SIZE as u32)));
                    }
                }
            }
            k = k + 1;
        }
        proof {
            assert(words.take(8) =~= words);
        }
        self.registers.lr = match self.mode {
            Mode::Handler => 0xFFFF_FFF1,
            Mode::Thread => if self.sp_select_bit() {
                0xFFFF_FFFD
            } else {
                0xFFFF_FFF9
            },
        };
        Ok(())
    }
}

/// The word `k` of the context frame at `fp`.
pub open spec fn frame_word(s: System, fp: u32, k: int) -> u32 {
    mem_word(s.alloc, fp + 4 * k)
}

/// Whether unstacking the context frame runs without a simulator error:
/// the frame lies outside the private peripheral bus and its return address
/// is half word aligned.
pub open spec fn restore_defined(s: System) -> bool {
    let fp = s.current_sp();
    &&& s.sp_usable()
    &&& aligned(fp, 4) ==> {
        &&& fp <= u32::MAX - 32
        &&& outside_ppb(fp, 32)
        &&& frame_word(s, fp, 6) & 1u32 == 0
    }
}

/// The bits of the stacked status register that an exception return keeps.
pub open spec fn restore_mask(s: System) -> u32 {
    if s.mode == Mode::Thread && le_u32(s.control_register) & 1u32 != 0 {
        0xF100_0000u32
    } else {
        0xF100_003Fu32
    }
}

/// `new` is `old` after unstacking the context frame at the current stack
/// pointer.
pub open spec fn restore_post(old: System, new: System) -> bool {
    let fp = old.current_sp();
    let s1 = with_sp(old, (fp + 32) as u32);
    &&& new.registers.generic@ == old.registers.generic@.update(0, frame_word(old, fp, 0)).update(
        1,
        frame_word(old, fp, 1),
    ).update(2, frame_word(old, fp, 2)).update(3, frame_word(old, fp, 3)).update(
        12,
        frame_word(old, fp, 4),
    )
    &&& new == System {
        registers: Registers {
            generic: new.registers.generic,
            lr: frame_word(old, fp, 5),
            pc: frame_word(old, fp, 6) as usize,
            ..s1.registers
        },
        xpsr: le_bytes_u32(restore_mask(old) & frame_word(old, fp, 7)),
        ..old
    }
}

proof fn lemma_frame_word_read(before: Map<u32, super::Page>, after: super::BlockAllocator, fp: u32, w: Seq<u32>, k: int)
    requires
        written(before, after.pages_map(), fp as int, words_bytes(w)),
        0 <= k < w.len(),
    ensures
        mem_word(after, fp + 4 * k) == w[k],
{
    let b = le_bytes_u32(w[k]);
    assert forall|j: int| 0 <= j < 4 implies after.byte(fp + 4 * k + j) == b[j] by {
        assert(byte_in(after.pages_map(), fp + 4 * k + j) == words_bytes(w)[4 * k + j]);
        assert((4 * k + j) / 4 == k && (4 * k + j) % 4 == j);
    }
    assert(le_u32(b) == (b[0] as u32) | ((b[1] as u32) << 8u32) | ((b[2] as u32) << 16u32) | ((b[3]
        as u32) << 24u32));
    lemma_le_bytes_u32_roundtrip(w[k]);
}

/// What an exception entry stacks, an exception return unstacks: where the
/// stack pointer was 8 byte aligned and the frame was left as it was, r0
/// to r3, r12 and LR come back, the program counter is the return address
/// that the entry stacked, and the stack pointer is where it was before.
pub proof fn lemma_context_frame_roundtrip(s0: System, s1: System, sm: System, s2: System, exc: ArmException)
    requires
        save_ok(s0),
        s0.current_sp() % 8 == 0,
        save_post(s0, s1, exc),
        sm.sp_sel() == s0.sp_sel(),
        sm.current_sp() == s1.current_sp(),
        bytes_in(sm.alloc.pages_map(), s1.current_sp() as int, 32) == bytes_in(s1.alloc.pages_map(), s1.current_sp() as int, 32),
        restore_post(sm, s2),
    ensures
        s2.registers.generic[0] == s0.registers.generic[0],
        s2.registers.generic[1] == s0.registers.generic[1],
        s2.registers.generic[2] == s0.registers.generic[2],
        s2.registers.generic[3] == s0.registers.generic[3],
        s2.registers.generic[12] == s0.registers.generic[12],
        s2.registers.lr == s0.registers.lr,
        s2.registers.pc == stacked_return(s0, exc) as usize,
        s2.current_sp() == s0.current_sp(),
{
    let sp = s0.current_sp();
    let fp = (sp - 32) as u32;
    assert(fp & !4u32 == fp) by (bit_vector)
        requires
            sp % 8 == 0,
            sp >= 32,
            fp == (sp - 32) as u32,
    ;
    assert(s1.current_sp() == fp);
    let w = frame_words(s0, exc);
    assert forall|k: int| 0 <= k < 8 implies #[trigger] frame_word(sm, fp, k) == w[k] by {
        lemma_frame_word_read(s0.alloc.pages_map(), s1.alloc, fp, w, k);
        let a = fp + 4 * k;
        let bm = bytes_in(sm.alloc.pages_map(), fp as int, 32);
        let b1 = bytes_in(s1.alloc.pages_map(), fp as int, 32);
        assert(bm[4 * k] == b1[4 * k]);
        assert(bm[4 * k + 1] == b1[4 * k + 1]);
        assert(bm[4 * k + 2] == b1[4 * k + 2]);
        assert(bm[4 * k + 3] == b1[4 * k + 3]);
        assert(sm.alloc.byte(a) == s1.alloc.byte(a));
        assert(sm.alloc.byte(a + 1) == s1.alloc.byte(a + 1));
        assert(sm.alloc.byte(a + 2) == s1.alloc.byte(a + 2));
        assert(sm.alloc.byte(a + 3) == s1.alloc.byte(a + 3));
        assert(mem_word(sm.alloc, a) == mem_word(s1.alloc, a));
    }
    assert(frame_word(sm, fp, 0) == w[0]);
    assert(frame_word(sm, fp, 1) == w[1]);
    assert(frame_word(sm, fp, 2) == w[2]);
    assert(frame_word(sm, fp, 3) == w[3]);
    assert(frame_word(sm, fp, 4) == w[4]);
    assert(frame_word(sm, fp, 5) == w[5]);
    assert(frame_word(sm, fp, 6) == w[6]);
    assert(s2.registers.generic@[0] == s2.registers.generic[0]);
    assert(s2.registers.generic@[12] == s2.registers.generic[12]);
}

/// The number of active exceptions below `n`.
pub open spec fn count_active(ex: Seq<ExceptionStatus>, n: nat) -> nat
    decreases n,
{
    if n == 0 || n > 48 {
        0
    } else {
        count_active(ex, (n - 1) as nat) + if is_active(ex[n - 1]) {
            1nat
        } else {
            0nat
        }
    }
}

/// The stack pointer that an exception return to `a` selects.
pub open spec fn return_sp(s: System, a: u32) -> u32 {
    if a & 0xFu32 == 0xDu32 {
        s.registers.sp_process
    } else {
        s.registers.sp_main
    }
}

/// Whether an exception return to EXC_RETURN value `a` runs without a
/// simulator error: in handler mode, with a valid EXC_RETURN value that
/// matches the number of active exceptions, the handled exception active,
/// and a context frame that restores a consistent IPSR.
pub open spec fn exc_return_defined(s: System, a: u32) -> bool {
    let h = ipsr_of(s.xpsr);
    let t = a & 0xFu32;
    let nested = count_active(s.active_exceptions@, 48);
    let fp = return_sp(s, a);
    let fx = mem_word(s.alloc, fp + 28);
    &&& s.mode == Mode::Handler
    &&& a & 0x0FFF_FFF0u32 == 0x0FFF_FFF0u32
    &&& (t == 1 && nested > 1) || ((t == 9 || t == 0xD) && nested == 1)
    &&& h < 48 && is_active(s.active_exceptions[h as int])
    &&& aligned(fp, 4) ==> {
        &&& fp <= u32::MAX - 32
        &&& outside_ppb(fp, 32)
        &&& mem_word(s.alloc, fp + 24) & 1u32 == 0
        &&& if t == 1 {
            fx & 0x3Fu32 != 0
        } else {
            le_u32(s.control_register) & 1u32 != 0 || fx & 0x3Fu32 == 0
        }
    }
}

/// `new` is `old` after an exception return to `a` with result `r`: the
/// handled exception is no longer active, the mode and stack are those
/// that `a` selects, and the context frame is unstacked when it is aligned.
pub open spec fn exc_return_post(old: System, new: System, a: u32, r: Result<u32, ArmException>) -> bool {
    let h = ipsr_of(old.xpsr);
    let t = a & 0xFu32;
    let fp = return_sp(old, a);
    let mode2 = if t == 1 { Mode::Handler } else { Mode::Thread };
    let c2 = le_bytes_u32(if t == 0xD { le_u32(old.control_register) | 2u32 } else { le_u32(old.control_register) & !2u32 });
    let ex2 = old.active_exceptions@.update(
        h as int,
        if old.active_exceptions[h as int] == ExceptionStatus::Active {
            ExceptionStatus::Inactive
        } else {
            ExceptionStatus::Pending
        },
    );
    let scs2 = SystemControlSpace {
        icsr: (old.scs.icsr & super::exceptions::IPSR_MASK) & !(super::exceptions::IPSR_MASK << 12u32),
        ..old.scs
    };
    let mask = if mode2 == Mode::Thread && le_u32(old.control_register) & 1u32 != 0 {
        0xF100_0000u32
    } else {
        0xF100_003Fu32
    };
    &&& new.active_exceptions@ == ex2
    &&& if aligned(fp, 4) {
        &&& r == Ok::<u32, ArmException>(h)
        &&& new.registers.generic@ == old.registers.generic@.update(0, mem_word(old.alloc, fp as int)).update(
            1,
            mem_word(old.alloc, fp + 4),
        ).update(2, mem_word(old.alloc, fp + 8)).update(3, mem_word(old.alloc, fp + 12)).update(
            12,
            mem_word(old.alloc, fp + 16),
        )
        &&& new == System {
            registers: Registers {
                generic: new.registers.generic,
                lr: mem_word(old.alloc, fp + 20),
                pc: mem_word(old.alloc, fp + 24) as usize,
                sp_main: if t == 0xD { old.registers.sp_main } else { (fp + 32) as u32 },
                sp_process: if t == 0xD { (fp + 32) as u32 } else { old.registers.sp_process },
                ..old.registers
            },
            xpsr: le_bytes_u32(mask & mem_word(old.alloc, fp + 28)),
            mode: mode2,
            control_register: c2,
            active_exceptions: new.active_exceptions,
            scs: scs2,
            event_register: true,
            ..old
        }
    } else {
        &&& r matches Err(e) && e is HardFault
        &&& new == System {
            mode: mode2,
            control_register: c2,
            active_exceptions: new.active_exceptions,
            scs: scs2,
            ..old
        }
    }
}

impl System {
    /// Unstacks the context frame at the current stack pointer: r0 to r3,
    /// r12, LR, PC and the status register, and moves the stack pointer past
    /// it; a HardFault where the frame is not word aligned.
    pub(crate) fn load_context_frame(&mut self, exc_return_address: u32) -> (r: Result<(), ArmException>)
        requires
            restore_defined(*old(self)),
        ensures
            r is Ok <==> aligned(old(self).current_sp(), 4),
            r matches Err(e) ==> e is HardFault && *final(self) == *old(self),
            r is Ok ==> restore_post(*old(self), *final(self)),
    {
        let ghost old_sys = *self;
        let frame_ptr = self.get_sp();
        proof {
            if aligned(frame_ptr, 4) {
                lemma_frame_addr(frame_ptr, 0);
            }
        }
        let b0 = load_memory::<4>(self, frame_ptr)?;
        proof {
            lemma_frame_addr(frame_ptr, 0);
            lemma_frame_addr(frame_ptr, 1);
            lemma_frame_addr(frame_ptr, 2);
            lemma_frame_addr(frame_ptr, 3);
            lemma_frame_addr(frame_ptr, 4);
            lemma_frame_addr(frame_ptr, 5);
            lemma_frame_addr(frame_ptr, 6);
            lemma_frame_addr(frame_ptr, 7);
            lemma_word_read(b0, self.alloc, frame_ptr);
        }
        self.registers.generic[0] = from_arm_bytes(b0);
        let b1 = load_memory::<4>(self, frame_ptr + 4)?;
        proof {
            lemma_word_read(b1, self.alloc, (frame_ptr + 4) as u32);
        }
        self.registers.generic[1] = from_arm_bytes(b1);
        let b2 = load_memory::<4>(self, frame_ptr + 8)?;
        proof {
            lemma_word_read(b2, self.alloc, (frame_ptr + 8) as u32);
        }
        self.registers.generic[2] = from_arm_bytes(b2);
        let b3 = load_memory::<4>(self, frame_ptr + 12)?;
        proof {
            lemma_word_read(b3, self.alloc, (frame_ptr + 12) as u32);
        }
        self.registers.generic[3] = from_arm_bytes(b3);
        let b4 = load_memory::<4>(self, frame_ptr + 16)?;
        proof {
            lemma_word_read(b4, self.alloc, (frame_ptr + 16) as u32);
        }
        self.registers.generic[12] = from_arm_bytes(b4);
        let b5 = load_memory::<4>(self, frame_ptr + 20)?;
        proof {
            lemma_word_read(b5, self.alloc, (frame_ptr + 20) as u32);
        }
        self.registers.lr = from_arm_bytes(b5);
        let b6 = load_memory::<4>(self, frame_ptr + 24)?;
        proof {
            lemma_word_read(b6, self.alloc, (frame_ptr + 24) as u32);
        }
        let new_pc = from_arm_bytes(b6);
        self.registers.pc = new_pc as usize;
        let b7 = load_memory::<4>(self, frame_ptr + 28)?;
        proof {
            lemma_word_read(b7, self.alloc, (frame_ptr + 28) as u32);
        }
        let frame_xpsr = from_arm_bytes(b7);
        let frame_alignment = (frame_xpsr & 0x200) != 0;
        let extra: u32 = if frame_alignment { 1u32 >> 3 } else { 0u32 >> 3 };
        let new_sp = (self.get_sp() + 0x20) | extra;
        proof {
            crate::binutils::lemma_bit_constants();
            crate::binutils::lemma_word_facts((frame_ptr + 0x20) as u32, 0);
            crate::binutils::lemma_word_facts(frame_ptr, 0);
        }
        match self.set_sp(new_sp) {
            Ok(_) => {},
            Err(e) => {
                proof {
                    assert(false);
                }
                return Err(e);
            },
        }
        let new_xpsr = if matches!(self.mode, Mode::Thread) && self.get_npriv() {
            0xF100_0000 & frame_xpsr
        } else {
            0xF100_003F & frame_xpsr
        };
        self.xpsr = u32_to_arm_bytes(new_xpsr);
        proof {
            assert(self.registers.generic@ =~= old_sys.registers.generic@.update(0, frame_word(old_sys, frame_ptr, 0)).update(
                1,
                frame_word(old_sys, frame_ptr, 1),
            ).update(2, frame_word(old_sys, frame_ptr, 2)).update(3, frame_word(old_sys, frame_ptr, 3)).update(
                12,
                frame_word(old_sys, frame_ptr, 4),
            ));
        }
        Ok(())
    }
}

/// The text that names an exception in the trace.
pub open spec fn exception_text(e: ArmException) -> Seq<char> {
    match e {
        ArmException::Reset => "Reset"@,
        ArmException::Nmi => "Nmi"@,
        ArmException::HardFault(m) => "HardFault(\""@ + m@ + "\")"@,
        ArmException::Svc => "Svc"@,
        ArmException::PendSV => "PendSV"@,
        ArmException::SysTick => "SysTick"@,
        ArmException::ExternInterrupt(n) => "ExternInterrupt("@ + crate::thumb::decode_operands::dec_text(n as nat) + ")"@,
    }
}

/// Appends the name of `e` to `buffer`.
fn serialise_exception(buffer: &mut String, e: &ArmException)
    ensures
        final(buffer)@ == old(buffer)@ + exception_text(*e),
{
    match e {
        ArmException::Reset => buffer.append("Reset"),
        ArmException::Nmi => buffer.append("Nmi"),
        ArmException::HardFault(m) => {
            buffer.append("HardFault(\"");
            buffer.append(m.as_str());
            buffer.append("\")");
        },
        ArmException::Svc => buffer.append("Svc"),
        ArmException::PendSV => buffer.append("PendSV"),
        ArmException::SysTick => buffer.append("SysTick"),
        ArmException::ExternInterrupt(n) => {
            buffer.append("ExternInterrupt(");
            crate::thumb::decode_operands::u32_to_b10(buffer, *n);
            buffer.append(")");
        },
    }
    proof {
        assert(final(buffer)@ =~= old(buffer)@ + exception_text(*e)) by {
            match *e {
                ArmException::HardFault(m) => {
                    assert(buffer@ =~= old(buffer)@ + "HardFault(\""@ + m@ + "\")"@);
                },
                ArmException::ExternInterrupt(n) => {
                    assert(buffer@ =~= old(buffer)@ + "ExternInterrupt("@ + crate::thumb::decode_operands::dec_text(n as nat) + ")"@);
                },
                _ => {},
            }
        }
    }
}

/// Whether a branch with exchange to `addr` runs without a simulator error.
pub open spec fn bx_defined(old: System, addr: u32) -> bool {
    &&& (addr & 0xF000_0000u32 == 0xF000_0000u32 && old.mode == Mode::Handler
    ==> exc_return_defined(old, addr))
    &&& (!(addr & 0xF000_0000u32 == 0xF000_0000u32 && old.mode == Mode::Handler) && addr
    & 1u32 != 0 ==> i32::MIN <= ((addr & 0xFFFF_FFFEu32) as i32) - (old.registers.pc
    as i32) <= i32::MAX)
}

/// `new` is `old` after a branch with exchange to `addr` gave `r`.
pub open spec fn bx_post(old: System, new: System, addr: u32, r: Result<i32, ArmException>) -> bool {
    if addr & 0xF000_0000u32 == 0xF000_0000u32 && old.mode == Mode::Handler {
        let h = ipsr_of(old.xpsr);
        if aligned(return_sp(old, addr), 4) {
            &&& r == Ok::<i32, ArmException>(0)
            &&& exc_return_post(old, System { trace: old.trace, ..new }, addr, Ok(h))
            &&& new.trace@ == if old.trace_enabled {
                old.trace@ + "returned from exception "@ + crate::thumb::decode_operands::dec_text(h as nat) + "\n"@
            } else {
                old.trace@
            }
        } else {
            &&& r matches Err(e) && e is HardFault
            &&& new.locked_up
            &&& new.registers.pc == 0xFFFF_FFFE
            &&& exc_return_post(
                old,
                System {
                    trace: old.trace,
                    registers: Registers { pc: old.registers.pc, ..new.registers },
                    locked_up: old.locked_up,
                    ..new
                },
                addr,
                Err(r->Err_0),
            )
            &&& if old.trace_enabled {
                old.trace@.is_prefix_of(new.trace@)
            } else {
                new.trace@ == old.trace@
            }
        }
    } else {
        &&& new == (System {
            xpsr: le_bytes_u32(
                if addr & 1u32 != 0 {
                    le_u32(old.xpsr) | 0x0100_0000u32
                } else {
                    le_u32(old.xpsr) & !0x0100_0000u32
                },
            ),
            ..old
        })
        &&& r is Ok <==> addr & 1u32 != 0
        &&& r matches Ok(off) ==> off == ((addr & 0xFFFF_FFFEu32) as i32) - (old.registers.pc as i32)
        &&& r matches Err(e) ==> e is HardFault
    }
}

impl System {
    /// Returns from the exception being handled to EXC_RETURN value
    /// `return_address`: the exception is no longer active, the mode and
    /// stack pointer are those the value selects, and the context frame is
    /// unstacked. Gives the number of the handled exception.
    #[verifier::rlimit(40)]
    pub(crate) fn exception_return(&mut self, return_address: u32) -> (r: Result<u32, ArmException>)
        requires
            exc_return_defined(*old(self), return_address),
        ensures
            exc_return_post(*old(self), *final(self), return_address, r),
    {
        let ghost old_sys = *self;
        let handled_exception = self.get_ipsr();
        let exc_ret_type = return_address & 0xF;
        if exc_ret_type == 1 {
            self.mode = Mode::Handler;
            self.set_sp_select_bit(false);
        } else if exc_ret_type == 9 {
            self.mode = Mode::Thread;
            self.set_sp_select_bit(false);
        } else {
            self.mode = Mode::Thread;
            self.set_sp_select_bit(true);
        }
        let status = self.active_exceptions[handled_exception as usize];
        match status {
            ExceptionStatus::Active => {
                self.active_exceptions[handled_exception as usize] = ExceptionStatus::Inactive;
            },
            _ => {
                self.active_exceptions[handled_exception as usize] = ExceptionStatus::Pending;
            },
        }
        self.scs.clear_vec_active();
        self.scs.clear_vec_pending();
        proof {
            let c = le_u32(old_sys.control_register);
            lemma_le_bytes_u32_roundtrip(c & !2u32);
            lemma_le_bytes_u32_roundtrip(c | 2u32);
            crate::binutils::lemma_word_facts(c, 0);
        }
        let ghost mid = *self;
        proof {
            let t = return_address & 0xFu32;
            assert(mid.sp_sel() == (t == 0xD));
            assert(mid.current_sp() == return_sp(old_sys, return_address));
            assert(le_u32(mid.control_register) & 1u32 == le_u32(old_sys.control_register) & 1u32);
        }
        let res = self.load_context_frame(return_address);
        match res {
            Ok(_) => {},
            Err(e) => {
                return Err(e);
            },
        }
        self.event_register = true;
        Ok(handled_exception)
    }

    /// The offset of a branch with exchange to `addr`: in handler mode an
    /// EXC_RETURN value returns from the exception (offset 0, or a lockup
    /// where the return fails); otherwise the Thumb bit is set from bit 0 and
    /// the offset is to `addr` with bit 0 cleared, a HardFault where bit 0 is
    /// clear.
    pub(crate) fn bx_interworking_pc_offset(&mut self, addr: u32) -> (r: Result<i32, ArmException>)
        requires
            bx_defined(*old(self), addr),
        ensures
            bx_post(*old(self), *final(self), addr, r),
    {
        if (addr & 0xF000_0000 == 0xF000_0000) && matches!(self.mode, Mode::Handler) {
            match self.exception_return(addr) {
                Ok(exc_n) => {
                    if self.trace_enabled {
                        self.trace.append("returned from exception ");
                        crate::thumb::decode_operands::u32_to_b10(&mut self.trace, exc_n);
                        self.trace.append("\n");
                    }
                    Ok(0)
                },
                Err(e) => {
                    let ghost before = self.trace@;
                    if self.trace_enabled {
                        self.trace.append("ERR: ");
                        serialise_exception(&mut self.trace, &e);
                        self.trace.append(" occured during exception return\n");
                    }
                    proof {
                        if old(self).trace_enabled {
                            assert(before.is_prefix_of(self.trace@));
                        }
                    }
                    self.lockup();
                    Err(e)
                },
            }
        } else {
            let bit = (addr & 0x1) != 0;
            self.set_epsr_t_bit(bit);
            if !bit {
                return Err(hard_fault("EPSR.T bit set to 0, the address is not interworking but should be"));
            }
            Ok(((addr & 0xFFFF_FFFE) as i32) - (self.registers.pc as i32))
        }
    }
}

/// The trace of `new` is that of `old`, extended only if tracing is on.
pub open spec fn trace_grows(old: System, new: System) -> bool {
    if old.trace_enabled {
        old.trace@.is_prefix_of(new.trace@)
    } else {
        new.trace@ == old.trace@
    }
}

/// `new` is `old` after moving the program counter by `off` with result `r`,
/// as `offset_pc` does.
pub open spec fn offset_post(old: System, new: System, off: i32, r: Result<(), ArmException>) -> bool {
    if old.locked_up {
        r is Ok && new == old
    } else {
        let a = (old.registers.pc as u32) + off;
        &&& r is Ok <==> a % 2 == 0
        &&& r matches Err(e) ==> e is HardFault
        &&& new == if r is Ok {
            System { registers: Registers { pc: a as usize, ..old.registers }, ..old }
        } else {
            old
        }
    }
}

/// Whether taking exception `e` runs without a simulator error, through
/// stacking, the vector table and the branch to the handler.
pub open spec fn init_defined(s: System, e: ArmException) -> bool {
    &&& actives_valid(s.active_exceptions@)
    &&& has_priority(e)
    &&& exception_number(e) < 48
    &&& !(spec_execution_priority(s.active_exceptions@, s.primask, s.scs) < spec_priority_group(e, s.scs)) ==> {
        &&& save_defined(s, e)
        &&& forall|s1: System| save_ok(s) && #[trigger] save_post(s, s1, e) ==> jump_defined(s1, e)
        &&& forall|s1: System, s2: System, off: i32|
            save_ok(s) && #[trigger] save_post(s, s1, e) && #[trigger] jump_post(s1, s2, e, Ok(off)) && !s2.locked_up
                ==> 0 <= (s2.registers.pc as u32) + off <= u32::MAX
    }
}

/// `new` is `old` after taking exception `e` with result `r`: kept pending
/// when its priority does not preempt the execution priority, otherwise
/// the context frame stacked, the handler entered and the PC moved to it,
/// and the number of the handled exception given back.
pub open spec fn init_post(old: System, new: System, e: ArmException, r: Result<Option<u32>, ArmException>) -> bool {
    let n = exception_number(e);
    if spec_execution_priority(old.active_exceptions@, old.primask, old.scs) < spec_priority_group(e, old.scs) {
        &&& r == Ok::<Option<u32>, ArmException>(None)
        &&& new.active_exceptions@ == old.active_exceptions@.update(n as int, ExceptionStatus::Pending)
        &&& new == System {
            active_exceptions: new.active_exceptions,
            scs: SystemControlSpace { icsr: old.scs.icsr | (n << 12u32), ..old.scs },
            ..old
        }
    } else {
        let t = System { trace: new.trace, ..old };
        &&& trace_grows(old, new)
        &&& if !save_ok(old) {
            &&& r matches Err(x) && x is HardFault
            &&& new == t
        } else {
            exists|s1: System, s2: System, jr: Result<i32, ArmException>|
                #![trigger save_post(t, s1, e), jump_post(s1, s2, e, jr)]
                save_post(t, s1, e) && jump_post(s1, s2, e, jr) && match jr {
                    Err(x) => r == Err::<Option<u32>, ArmException>(x) && new == s2,
                    Ok(off) => exists|pr: Result<(), ArmException>|
                        #[trigger] offset_post(s2, new, off, pr) && match pr {
                            Ok(_) => r == Ok::<Option<u32>, ArmException>(Some(ipsr_of(new.xpsr))),
                            Err(x) => r == Err::<Option<u32>, ArmException>(x),
                        },
                }
        }
    }
}

impl System {
    /// Takes exception `exc_type`, or keeps it pending where it does not
    /// preempt the execution priority; gives the number of the exception
    /// now handled, if one was entered.
    pub(crate) fn init_exception(&mut self, exc_type: ArmException) -> (r: Result<Option<u32>, ArmException>)
        requires
            init_defined(*old(self), exc_type),
        ensures
            init_post(*old(self), *final(self), exc_type, r),
            r matches Err(x) ==> x is HardFault,
    {
        let ghost old_sys = *self;
        let n = exc_type.number();
        if self.execution_priority(self.primask, &self.scs) < exc_type.priority_group(&self.scs) {
            self.active_exceptions[n as usize] = ExceptionStatus::Pending;
            self.scs.set_vec_pending(n);
            return Ok(None);
        }
        if self.trace_enabled {
            self.trace.append("initialising ");
            serialise_exception(&mut self.trace, &exc_type);
            self.trace.append(" exception\n");
        }
        let ghost t = *self;
        proof {
            assert(t == System { trace: t.trace, ..old_sys });
        }
        match self.save_context_frame(&exc_type) {
            Ok(_) => {},
            Err(e) => {
                return Err(e);
            },
        }
        let ghost s1 = *self;
        proof {
            let u = System { trace: old_sys.trace, ..s1 };
            assert(save_post(old_sys, u, exc_type));
            assert(jump_defined(u, exc_type));
        }
        let jr = self.jump_to_exception(&exc_type);
        let ghost s2 = *self;
        let offset = match jr {
            Ok(off) => off,
            Err(e) => {
                return Err(e);
            },
        };
        proof {
            let u1 = System { trace: old_sys.trace, ..s1 };
            let u2 = System { trace: old_sys.trace, ..s2 };
            assert(save_post(old_sys, u1, exc_type));
            assert(jump_post(u1, u2, exc_type, Ok(offset)));
        }
        let pr = self.offset_pc(offset);
        proof {
            assert(offset_post(s2, *self, offset, pr));
        }
        match pr {
            Ok(_) => Ok(Some(self.get_ipsr())),
            Err(e) => Err(e),
        }
    }
}

/// The exception that is taken next among the pending ones below `n`: the
/// first of highest priority among those pending and, for an interrupt,
/// enabled.
pub open spec fn pending_pick(ex: Seq<ExceptionStatus>, scs: SystemControlSpace, n: nat) -> Option<u32>
    decreases n,
{
    if n == 0 || n > 48 {
        None
    } else {
        let r = pending_pick(ex, scs, (n - 1) as nat);
        let i = (n - 1) as u32;
        if ex[i as int] == ExceptionStatus::Pending && (i < 16 || scs.enabled_interrupts & (1u32 << ((i - 16) as u32)) != 0) {
            match r {
                None => Some(i),
                Some(j) => if number_priority(scs, i) < number_priority(scs, j) {
                    Some(i)
                } else {
                    r
                },
            }
        } else {
            r
        }
    }
}

/// Whether exception `i` is pending and, for an interrupt, enabled.
pub open spec fn pending_enabled(ex: Seq<ExceptionStatus>, scs: SystemControlSpace, i: u32) -> bool {
    ex[i as int] == ExceptionStatus::Pending && (i < 16 || scs.enabled_interrupts & (1u32 << ((i - 16) as u32)) != 0)
}

/// The pick among the first `n` numbers is one of them, pending and enabled.
proof fn lemma_pending_pick_is_pending(ex: Seq<ExceptionStatus>, scs: SystemControlSpace, n: nat)
    ensures
        pending_pick(ex, scs, n) matches Some(j) ==> j < n && pending_enabled(ex, scs, j),
    decreases n,
{
    if n > 0 && n <= 48 {
        lemma_pending_pick_is_pending(ex, scs, (n - 1) as nat);
    }
}

/// Where no pending and enabled exception has a priority above the
/// execution priority, a check for exceptions takes none and leaves the
/// system as it was.
pub proof fn lemma_no_preemption(old: System, new: System, r: Option<u32>)
    requires
        check_post(old, new, r),
        forall|i: u32|
            i < 48 && #[trigger] pending_enabled(old.active_exceptions@, old.scs, i) ==> number_priority(old.scs, i)
                >= spec_execution_priority(old.active_exceptions@, old.primask, old.scs),
    ensures
        r is None,
        new == old,
{
    lemma_pending_pick_is_pending(old.active_exceptions@, old.scs, 48);
}

/// No reserved exception number is pending and enabled.
pub open spec fn pendings_valid(ex: Seq<ExceptionStatus>, scs: SystemControlSpace) -> bool {
    forall|i: int|
        0 <= i < 48 && #[trigger] ex[i] == ExceptionStatus::Pending && (i < 16 || scs.enabled_interrupts
            & (1u32 << ((i - 16) as u32)) != 0) ==> !is_reserved_number(i as u32)
}

/// `e` is the exception that `from_exception_number(n)` gives.
pub open spec fn exception_of(e: ArmException, n: u32) -> bool {
    &&& exception_number(e) == n
    &&& e matches ArmException::ExternInterrupt(m) ==> m >= 16
    &&& e matches ArmException::HardFault(msg) ==> msg@ == Seq::<char>::empty()
}

/// `s2` is `s1` with exception `n` made pending.
pub open spec fn pending_set(s1: System, s2: System, n: u32) -> bool {
    &&& s2.active_exceptions@ == s1.active_exceptions@.update(n as int, ExceptionStatus::Pending)
    &&& s2 == System { active_exceptions: s2.active_exceptions, ..s1 }
}

/// Whether handling the failure `d` of an exception entry, from state
/// `s1`, runs without a simulator error.
pub open spec fn derived_defined(s1: System, d: ArmException) -> bool {
    let cur = spec_execution_priority(s1.active_exceptions@, s1.primask, s1.scs);
    &&& actives_valid(s1.active_exceptions@)
    &&& d is HardFault
    &&& !(cur == -1 || cur == -2) ==> forall|s2: System| #[trigger] pending_set(s1, s2, 3) ==> {
        &&& spec_priority_group(d, s2.scs) < cur ==> init_defined(s2, d)
    }
}

/// Whether `check_for_exceptions` runs without a simulator error.
pub open spec fn check_defined(s: System) -> bool {
    &&& pendings_valid(s.active_exceptions@, s.scs)
    &&& actives_valid(s.active_exceptions@)
    &&& match pending_pick(s.active_exceptions@, s.scs, 48) {
        None => true,
        Some(n) => number_priority(s.scs, n) < spec_execution_priority(s.active_exceptions@, s.primask, s.scs)
            ==> forall|e: ArmException| #[trigger] exception_of(e, n) ==> {
            &&& init_defined(s, e)
            &&& forall|s1: System, d: ArmException| #[trigger] init_post(s, s1, e, Err(d)) ==> derived_defined(s1, d)
        },
    }
}

/// `new` is `s1` after the failure `d` of an exception entry was handled:
/// a lockup where the execution priority is that of NMI or HardFault,
/// otherwise `d` pending and taken if it preempts, and a lockup where that
/// fails too.
pub open spec fn derived_post(s1: System, new: System, d: ArmException, r: Option<u32>) -> bool {
    let cur = spec_execution_priority(s1.active_exceptions@, s1.primask, s1.scs);
    if cur == -1 || cur == -2 {
        r is None && new == System {
            registers: Registers { pc: 0xFFFF_FFFEusize, ..s1.registers },
            locked_up: true,
            ..s1
        }
    } else {
        exists|s2: System| #[trigger] pending_set(s1, s2, 3) && if spec_priority_group(d, s2.scs) < cur {
            exists|s3: System, ir: Result<Option<u32>, ArmException>| #[trigger] init_post(s2, s3, d, ir) && match ir {
                Ok(x) => r == x && new == s3,
                Err(e2) => r is None && exists|s4: System| #[trigger] pending_set(s3, s4, exception_number(e2))
                    && new == System {
                    registers: Registers { pc: 0xFFFF_FFFEusize, ..s4.registers },
                    locked_up: true,
                    ..s4
                },
            }
        } else {
            r is None && new == s2
        }
    }
}

/// `new` is `old` after `check_for_exceptions` gave `r`.
pub open spec fn check_post(old: System, new: System, r: Option<u32>) -> bool {
    match pending_pick(old.active_exceptions@, old.scs, 48) {
        None => r is None && new == old,
        Some(n) => if number_priority(old.scs, n) < spec_execution_priority(old.active_exceptions@, old.primask, old.scs) {
            exists|e: ArmException, s1: System, ir: Result<Option<u32>, ArmException>|
                #![trigger exception_of(e, n), init_post(old, s1, e, ir)]
                exception_of(e, n) && init_post(old, s1, e, ir) && match ir {
                    Ok(x) => r == x && new == s1,
                    Err(d) => derived_post(s1, new, d, r),
                }
        } else {
            r is None && new == old
        },
    }
}

impl System {
    /// Takes the pending exception of highest priority if it preempts the
    /// execution priority, handling a failed entry as the architecture's
    /// derived exceptions; gives the number of the exception now handled.
    #[verifier::rlimit(40)]
    pub fn check_for_exceptions(&mut self) -> (r: Option<u32>)
        requires
            check_defined(*old(self)),
        ensures
            check_post(*old(self), *final(self), r),
    {
        let ghost old_sys = *self;
        let mut maybe_taken: Option<ArmException> = None;
        let mut i: usize = 0;
        while i < 48
            invariant
                i <= 48,
                *self == old_sys,
                pendings_valid(old_sys.active_exceptions@, old_sys.scs),
                match pending_pick(old_sys.active_exceptions@, old_sys.scs, i as nat) {
                    None => maybe_taken is None,
                    Some(n) => n < i && (maybe_taken matches Some(e) && exception_of(e, n)),
                },
            decreases 48 - i,
        {
            match self.active_exceptions[i] {
                ExceptionStatus::Pending => {
                    if i < 16 || self.scs.is_nvic_interrupt_enabled(i as u32 - 16) {
                        let exc = match ArmException::from_exception_number(i as u32) {
                            Some(e) => e,
                            None => {
                                proof {
                                    assert(false);
                                }
                                ArmException::Reset
                            },
                        };
                        proof {
                            lemma_exception_priority(exc, self.scs, i as u32);
                        }
                        match maybe_taken {
                            None => {
                                maybe_taken = Some(exc);
                            },
                            Some(ref taken) => {
                                proof {
                                    lemma_exception_priority(*taken, self.scs, exception_number(*taken));
                                }
                                if exc.priority_group(&self.scs) < taken.priority_group(&self.scs) {
                                    maybe_taken = Some(exc);
                                }
                            },
                        }
                    }
                },
                _ => {},
            }
            i = i + 1;
        }
        let exc = match maybe_taken {
            Some(e) => e,
            None => {
                return None;
            },
        };
        let ghost num = exception_number(exc);
        proof {
            lemma_exception_priority(exc, self.scs, num);
        }
        if !(exc.priority_group(&self.scs) < self.execution_priority(self.primask, &self.scs)) {
            return None;
        }
        let ghost e0 = exc;
        let res = self.init_exception(exc);
        let ghost s1 = *self;
        match res {
            Ok(x) => {
                proof {
                    assert(exception_of(e0, num));
                    assert(init_post(old_sys, s1, e0, Ok(x)));
                }
                return x;
            },
            Err(derived_exc) => {
                proof {
                    assert(init_post(old_sys, s1, e0, Err(derived_exc)));
                    assert(derived_defined(s1, derived_exc));
                }
                let current_priority = self.execution_priority(self.primask, &self.scs);
                if current_priority == -1 || current_priority == -2 {
                    self.lockup();
                } else {
                    proof {
                        lemma_exception_priority(derived_exc, self.scs, 3);
                    }
                    self.set_exc_pending(ArmException::HardFault(String::new()));
                    let ghost s2 = *self;
                    proof {
                        assert(pending_set(s1, s2, 3));
                    }
                    if derived_exc.priority_group(&self.scs) < current_priority {
                        let res2 = self.init_exception(derived_exc);
                        let ghost s3 = *self;
                        match res2 {
                            Ok(n2) => {
                                proof {
                                    assert(init_post(s2, s3, derived_exc, Ok(n2)));
                                }
                                return n2;
                            },
                            Err(e) => {
                                proof {
                                    assert(init_post(s2, s3, derived_exc, Err(e)));
                                }
                                self.set_exc_pending(e);
                                let ghost s4 = *self;
                                proof {
                                    assert(pending_set(s3, s4, exception_number(e)));
                                }
                                self.lockup();
                            },
                        }
                    }
                }
                None
            },
        }
    }
}

} // verus!
