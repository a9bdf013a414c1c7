//! Exceptions, their priorities, the system control space that configures
//! them, and memory access permissions.
use vstd::prelude::*;

verus! {

/// The state of one exception number.
#[derive(Clone, Copy, Debug, PartialEq, Eq, Structural)]
pub enum ExceptionStatus {
    Active,
    Inactive,
    Pending,
    ActiveAndPending,
}

/// An exception that the processor can take.
#[derive(Clone, Debug)]
pub enum ArmException {
    Reset,
    Nmi,
    HardFault(String),
    Svc,
    PendSV,
    SysTick,
    ExternInterrupt(u32),
}

/// The architectural number of an exception.
pub open spec fn exception_number(e: ArmException) -> u32 {
    match e {
        ArmException::Reset => 1,
        ArmException::Nmi => 2,
        ArmException::HardFault(_) => 3,
        ArmException::Svc => 11,
        ArmException::PendSV => 14,
        ArmException::SysTick => 15,
        ArmException::ExternInterrupt(n) => n,
    }
}

/// Whether `n` names no exception: 0 and the reserved numbers.
pub open spec fn is_reserved_number(n: u32) -> bool {
    n == 0 || (4 <= n <= 10) || n == 12 || n == 13
}

/// The priority of an external interrupt `n` (16 to 47): two bits of the
/// interrupt priority registers.
pub open spec fn spec_nvic_priority(ipr: [u32; 8], n: u32) -> i32 {
    ((ipr[((n - 16) / 4) as int] >> ((6 + 8 * ((n - 16) % 4)) as u32)) & 3u32) as i32
}

/// The priority group of an exception: fixed and negative for reset, NMI and
/// HardFault, configured for the others.
pub open spec fn spec_priority_group(e: ArmException, scs: SystemControlSpace) -> i32 {
    match e {
        ArmException::Reset => -3i32,
        ArmException::Nmi => -2i32,
        ArmException::HardFault(_) => -1i32,
        ArmException::Svc => ((scs.shpr2 & 0xC000_0000u32) >> 30u32) as i32,
        ArmException::PendSV => ((scs.shpr3 & 0x00C0_0000u32) >> 22u32) as i32,
        ArmException::SysTick => ((scs.shpr3 & 0xC000_0000u32) >> 30u32) as i32,
        ArmException::ExternInterrupt(n) => spec_nvic_priority(scs.ipr, n),
    }
}

/// Whether `priority_group` can be asked of `e`: an external interrupt's
/// number must be one of the 32 that the priority registers cover.
pub open spec fn has_priority(e: ArmException) -> bool {
    match e {
        ArmException::ExternInterrupt(n) => 16 <= n < 48,
        _ => true,
    }
}

impl ArmException {
    /// The exception with number `n`, or `None` for 0 and the reserved numbers.
    pub fn from_exception_number(n: u32) -> (r: Option<Self>)
        ensures
            r is None <==> is_reserved_number(n),
            r matches Some(e) ==> exception_number(e) == n,
            r matches Some(ArmException::HardFault(msg)) ==> msg@ == Seq::<char>::empty(),
            r matches Some(ArmException::ExternInterrupt(m)) ==> m >= 16,
    {
        match n {
            0 => None,
            1 => Some(Self::Reset),
            2 => Some(Self::Nmi),
            3 => Some(Self::HardFault(String::new())),
            4..=10 => None,
            11 => Some(Self::Svc),
            12..=13 => None,
            14 => Some(Self::PendSV),
            15 => Some(Self::SysTick),
            n => Some(Self::ExternInterrupt(n)),
        }
    }

    /// The address an exception taken at `current_address` returns to: the
    /// next instruction, or for a synchronous HardFault the faulting one.
    pub fn return_address(&self, current_address: u32, sync: bool) -> (r: u32)
        requires
            !(*self is Reset),
            current_address + 2 <= u32::MAX,
        ensures
            r == if (*self is HardFault) && sync {
                current_address
            } else {
                (current_address + 2) as u32 & 0xFFFF_FFFEu32
            },
    {
        let next = (current_address + 2) & 0xFFFF_FFFE;
        match self {
            ArmException::HardFault(_) => if sync {
                current_address
            } else {
                next
            },
            _ => next,
        }
    }

    /// The exception's number.
    pub fn number(&self) -> (r: u32)
        ensures
            r == exception_number(*self),
    {
        match self {
            Self::Reset => 1,
            Self::Nmi => 2,
            Self::HardFault(_) => 3,
            Self::Svc => 11,
            Self::PendSV => 14,
            Self::SysTick => 15,
            Self::ExternInterrupt(n) => *n,
        }
    }

    /// Whether the exception is a fault.
    pub fn is_fault(&self) -> (r: bool)
        ensures
            r == (*self is HardFault),
    {
        match self {
            Self::HardFault(_) => true,
            _ => false,
        }
    }

    /// The exception's priority group; lower numbers take precedence.
    pub fn priority_group(&self, scs: &SystemControlSpace) -> (r: i32)
        requires
            has_priority(*self),
        ensures
            r == spec_priority_group(*self, *scs),
            -3 <= r <= 3,
    {
        proof {
            crate::binutils::lemma_word_facts(scs.shpr2, 0);
            crate::binutils::lemma_word_facts(scs.shpr3, 0);
        }
        match self {
            Self::Reset => -3,
            Self::Nmi => -2,
            Self::HardFault(_) => -1,
            Self::Svc => ((scs.shpr2 & 0xC000_0000) >> 30) as i32,
            Self::PendSV => ((scs.shpr3 & 0x00C0_0000) >> 22) as i32,
            Self::SysTick => ((scs.shpr3 & 0xC000_0000) >> 30) as i32,
            Self::ExternInterrupt(n) => scs.nvic_priority_of(*n),
        }
    }
}

/// The bits of the program status register that hold the exception number
/// cleared: `0xFFFFFFC0`.
pub const IPSR_MASK: u32 = 0xFFFF_FFC0;

/// The registers of the system control space and of the interrupt
/// controller.
#[derive(Clone, Copy, Debug)]
pub struct SystemControlSpace {
    pub enabled_interrupts: u32,
    pub wfi_wake_up: bool,
    pub icsr: u32,
    pub vtor: u32,
    pub aircr: u32,
    pub scr: u32,
    pub ccr: u32,
    pub shpr2: u32,
    pub shpr3: u32,
    pub ipr: [u32; 8],
}

proof fn lemma_nvic_bits(v: u32, x: u32)
    by (bit_vector)
    requires
        v < 32,
    ensures
        (v & 0xFFFF_FFFCu32) / 4 == v / 4,
        v - (v & 0xFFFF_FFFCu32) == v % 4,
        v % 4 < 4,
        (x & (3u32 << ((6 + 8 * (v % 4)) as u32))) >> ((6 + 8 * (v % 4)) as u32) == (x >> ((6 + 8
            * (v % 4)) as u32)) & 3u32,
        (x >> ((6 + 8 * (v % 4)) as u32)) & 3u32 <= 3,
{
}

impl SystemControlSpace {
    /// The registers after a reset.
    pub fn reset() -> (r: Self)
        ensures
            r.enabled_interrupts == 0,
            r.wfi_wake_up,
            r.icsr == 0,
            r.vtor == 0,
            r.aircr == 0,
            r.scr == 0,
            r.ccr == 0x108,
            r.shpr2 == 0,
            r.shpr3 == 0,
            forall|i: int| 0 <= i < 8 ==> #[trigger] r.ipr[i] == 0,
    {
        Self {
            enabled_interrupts: 0,
            wfi_wake_up: true,
            icsr: 0,
            vtor: 0,
            aircr: 0,
            scr: 0,
            ccr: 0x108,
            shpr2: 0,
            shpr3: 0,
            ipr: [0u32; 8],
        }
    }

    /// Records exception `exc_n` as active in ICSR.
    pub fn set_vec_active(&mut self, exc_n: u32)
        ensures
            *final(self) == (SystemControlSpace { icsr: old(self).icsr | exc_n, ..*old(self) }),
    {
        self.icsr = self.icsr | exc_n;
    }

    /// Clears the active exception number of ICSR.
    pub fn clear_vec_active(&mut self)
        ensures
            *final(self) == (SystemControlSpace { icsr: old(self).icsr & IPSR_MASK, ..*old(self) }),
    {
        self.icsr = self.icsr & IPSR_MASK;
    }

    /// Records exception `exc_n` as pending in ICSR.
    pub fn set_vec_pending(&mut self, exc_n: u32)
        ensures
            *final(self) == (SystemControlSpace {
                icsr: old(self).icsr | (exc_n << 12u32),
                ..*old(self)
            }),
    {
        self.icsr = self.icsr | (exc_n << 12);
    }

    /// Clears bits 31 to 18 of ICSR and keeps bits 17 to 0, the pending
    /// exception number among them.
    pub fn clear_vec_pending(&mut self)
        ensures
            *final(self) == (SystemControlSpace {
                icsr: old(self).icsr & !(IPSR_MASK << 12u32),
                ..*old(self)
            }),
    {
        self.icsr = self.icsr & !(IPSR_MASK << 12);
    }

    /// The priority of external interrupt `exec` (16 to 47).
    pub fn nvic_priority_of(&self, exec: u32) -> (r: i32)
        requires
            16 <= exec < 48,
        ensures
            r == spec_nvic_priority(self.ipr, exec),
            0 <= r <= 3,
    {
        let v: u32 = exec - 16;
        proof {
            lemma_nvic_bits(v, self.ipr[(v / 4) as int]);
        }
        let word_offset: u32 = v & 0xFFFF_FFFC;
        let intra_word_offset: u32 = v - word_offset;
        let shift: u32 = 6 + 8 * intra_word_offset;
        ((self.ipr[(word_offset / 4) as usize] & (3u32 << shift)) >> shift) as i32
    }

    /// Whether external interrupt `interrupt_n` (0 to 31) is enabled.
    pub fn is_nvic_interrupt_enabled(&self, interrupt_n: u32) -> (r: bool)
        requires
            interrupt_n < 32,
        ensures
            r == (self.enabled_interrupts & (1u32 << interrupt_n) != 0),
    {
        (self.enabled_interrupts & (1u32 << interrupt_n)) != 0
    }
}

/// What an access level allows.
#[derive(Clone, Copy, Debug, PartialEq, Eq, Structural)]
pub enum AccessPermission {
    NoAccess,
    ReadOnly,
    ReadAndWrite,
}

/// The access allowed to privileged and to unprivileged code.
#[derive(Clone, Copy, Debug, PartialEq, Eq, Structural)]
pub struct MemPermission {
    pub privileged: AccessPermission,
    pub unprivileged: AccessPermission,
}

/// A kind of memory access.
#[derive(Clone, Copy, Debug, PartialEq, Eq, Structural)]
pub enum Access {
    READ,
    WRITE,
    Execute,
}

/// Full access for privileged and unprivileged code.
pub open spec fn spec_full_access() -> MemPermission {
    MemPermission {
        privileged: AccessPermission::ReadAndWrite,
        unprivileged: AccessPermission::ReadAndWrite,
    }
}

impl MemPermission {
    /// Full access for privileged and unprivileged code.
    pub fn full_access() -> (r: Self)
        ensures
            r == spec_full_access(),
    {
        Self {
            privileged: AccessPermission::ReadAndWrite,
            unprivileged: AccessPermission::ReadAndWrite,
        }
    }

    /// The permissions of the AP field (bits 24 and 25) of an MPU region
    /// attribute register.
    pub fn from_mpu_rasr(raw: u32) -> (r: Result<Self, ArmException>)
        ensures
            r matches Ok(p) && p == match (raw >> 24u32) & 3u32 {
                0u32 => MemPermission {
                    privileged: AccessPermission::NoAccess,
                    unprivileged: AccessPermission::NoAccess,
                },
                1u32 => MemPermission {
                    privileged: AccessPermission::ReadAndWrite,
                    unprivileged: AccessPermission::NoAccess,
                },
                2u32 => MemPermission {
                    privileged: AccessPermission::ReadAndWrite,
                    unprivileged: AccessPermission::ReadOnly,
                },
                _ => spec_full_access(),
            },
    {
        let perms: u32 = (raw & 0x0300_0000) >> 24;
        proof {
            crate::binutils::lemma_word_facts(raw, 0);
        }
        match perms {
            0 => Ok(Self { privileged: AccessPermission::NoAccess, unprivileged: AccessPermission::NoAccess }),
            1 => Ok(
                Self { privileged: AccessPermission::ReadAndWrite, unprivileged: AccessPermission::NoAccess },
            ),
            2 => Ok(
                Self { privileged: AccessPermission::ReadAndWrite, unprivileged: AccessPermission::ReadOnly },
            ),
            3 => Ok(Self::full_access()),
            4 => Err(ArmException::HardFault(String::new())),
            5 => Ok(
                Self { privileged: AccessPermission::ReadAndWrite, unprivileged: AccessPermission::NoAccess },
            ),
            _ => Ok(Self { privileged: AccessPermission::ReadOnly, unprivileged: AccessPermission::ReadOnly }),
        }
    }
}

} // verus!
