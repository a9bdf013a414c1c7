//! The text logic behind the user interface: which lines of a listing are
//! shown, searching it, and the choices its panes offer.
pub mod window;
pub mod searchbar;
pub mod input;
pub mod panel;

use vstd::prelude::*;
use vstd::string::StringExecFns;
use crate::binutils::{le_u16, le_u32, from_arm_bytes, from_arm_bytes_16b};
use crate::elf::decoder::SymbolDefinition;
use crate::thumb::decode_operands::{dec_text, hex_text, u32_to_b10, u32_to_hex};
use crate::thumb::interpreter::{INDENT, SymbolTable, lookup_result};
use crate::thumb::listing::{hex_padded, push_hex};
use crate::system::{Mode, System};
use crate::system::registers::Registers;
pub use input::{parse_hex, BkptInput};

verus! {

/// How the bytes of a memory view are read: words, half words or bytes,
/// unsigned or signed.
#[derive(Clone, Copy, Debug, PartialEq, Eq, Structural)]
pub enum Cast {
    UWORD,
    IWORD,
    UHALF,
    IHALF,
    UBYTE,
    IBYTE,
}

/// The name of the integer type a cast reads as.
pub open spec fn cast_name(c: Cast) -> Seq<char> {
    match c {
        Cast::UWORD => "u32"@,
        Cast::IWORD => "i32"@,
        Cast::UHALF => "u16"@,
        Cast::IHALF => "i16"@,
        Cast::UBYTE => "u8"@,
        Cast::IBYTE => "i8"@,
    }
}

impl Cast {
    /// The name of the integer type this cast reads as.
    pub fn name(&self) -> (r: &'static str)
        ensures
            r@ == cast_name(*self),
    {
        match self {
            Cast::UWORD => "u32",
            Cast::IWORD => "i32",
            Cast::UHALF => "u16",
            Cast::IHALF => "i16",
            Cast::UBYTE => "u8",
            Cast::IBYTE => "i8",
        }
    }
}

/// How many bytes one value of a cast takes.
pub open spec fn cast_width(c: Cast) -> nat {
    match c {
        Cast::UWORD | Cast::IWORD => 4,
        Cast::UHALF | Cast::IHALF => 2,
        Cast::UBYTE | Cast::IBYTE => 1,
    }
}

/// The two's complement reading of `v`, with `half` the first value whose
/// sign bit is set.
pub open spec fn signed_of(v: int, half: int) -> int {
    if v >= half {
        v - 2 * half
    } else {
        v
    }
}

/// `x` in decimal, with a minus sign where it is negative.
pub open spec fn int_text(x: int) -> Seq<char> {
    if x < 0 {
        "-"@ + dec_text((-x) as nat)
    } else {
        dec_text(x as nat)
    }
}

/// The value that `cast` reads from the bytes of `b` at `i`, little endian.
pub open spec fn item_value(cast: Cast, b: Seq<u8>, i: int) -> int {
    match cast {
        Cast::UWORD => le_u32([b[i], b[i + 1], b[i + 2], b[i + 3]]) as int,
        Cast::IWORD => signed_of(le_u32([b[i], b[i + 1], b[i + 2], b[i + 3]]) as int, 0x8000_0000),
        Cast::UHALF => le_u16([b[i], b[i + 1]]) as int,
        Cast::IHALF => signed_of(le_u16([b[i], b[i + 1]]) as int, 0x8000),
        Cast::UBYTE => b[i] as int,
        Cast::IBYTE => signed_of(b[i] as int, 0x80),
    }
}

/// The line of a memory view for the value that `cast` reads from `b` at
/// `i`, at address `a`, with the symbol table cursor at `c`: the name of a
/// symbol there, then the address and the value.
pub open spec fn memory_line(syms: Seq<SymbolDefinition>, c: int, a: int, b: Seq<u8>, cast: Cast, i: int) -> Seq<char> {
    (match lookup_result(syms, c, a as usize, false).0 {
        Some(k) => "<"@ + syms[k].name@ + ">:\n"@,
        None => Seq::empty(),
    }) + "   "@ + hex_text(a as u32) + ": "@ + int_text(item_value(cast, b, i)) + "\n"@
}

/// The lines of a memory view of the bytes `b` at `base`, from value `k`
/// on, with the symbol table cursor at `c`: each value as `cast` reads it,
/// after its address, and after the name of a symbol there; bytes left
/// over after the last whole value are not shown.
pub open spec fn memory_lines(syms: Seq<SymbolDefinition>, c: int, base: int, b: Seq<u8>, cast: Cast, k: int) -> Seq<char>
    decreases (b.len() as int) / (cast_width(cast) as int) - k,
{
    let w = cast_width(cast) as int;
    if k < 0 || k >= (b.len() as int) / w {
        Seq::empty()
    } else {
        let a = base + k * w;
        memory_line(syms, c, a, b, cast, k * w) + memory_lines(syms, lookup_result(syms, c, a as usize, false).1, base, b, cast, k + 1)
    }
}

/// Appends `v` read as a signed number whose sign bit is worth `half`.
fn push_signed(buffer: &mut String, v: u32, half: u32)
    requires
        half > 0,
        v < 2 * half,
    ensures
        final(buffer)@ == old(buffer)@ + int_text(signed_of(v as int, half as int)),
{
    proof {
        reveal_strlit("-");
    }
    if v >= half {
        buffer.append("-");
        let magnitude = half - (v - half);
        u32_to_b10(buffer, magnitude);
        assert(buffer@ =~= old(buffer)@ + int_text(signed_of(v as int, half as int)));
    } else {
        u32_to_b10(buffer, v);
    }
}

/// Appends the value that `cast` reads from `arr` at `i`.
fn push_item(buffer: &mut String, cast: Cast, arr: &[u8], i: usize)
    requires
        i + cast_width(cast) <= arr@.len(),
    ensures
        final(buffer)@ == old(buffer)@ + int_text(item_value(cast, arr@, i as int)),
{
    match cast {
        Cast::UWORD => {
            let native = from_arm_bytes([arr[i], arr[i + 1], arr[i + 2], arr[i + 3]]);
            u32_to_b10(buffer, native);
        },
        Cast::IWORD => {
            let native = from_arm_bytes([arr[i], arr[i + 1], arr[i + 2], arr[i + 3]]);
            push_signed(buffer, native, 0x8000_0000);
        },
        Cast::UHALF => {
            let native = from_arm_bytes_16b([arr[i], arr[i + 1]]);
            u32_to_b10(buffer, native as u32);
        },
        Cast::IHALF => {
            let native = from_arm_bytes_16b([arr[i], arr[i + 1]]);
            push_signed(buffer, native as u32, 0x8000);
        },
        Cast::UBYTE => {
            u32_to_b10(buffer, arr[i] as u32);
        },
        Cast::IBYTE => {
            push_signed(buffer, arr[i] as u32, 0x80);
        },
    }
}

proof fn lemma_value_in_range(k: int, w: int, len: int)
    requires
        w > 0,
        0 <= k < len / w,
        len >= 0,
    ensures
        k * w + w <= (len / w) * w,
        (len / w) * w <= len,
        (k + 1) * w == k * w + w,
{
    vstd::arithmetic::div_mod::lemma_fundamental_div_mod(len, w);
    vstd::arithmetic::div_mod::lemma_mod_pos_bound(len, w);
    vstd::arithmetic::mul::lemma_mul_inequality(k + 1, len / w, w);
    vstd::arithmetic::mul::lemma_mul_is_distributive_add_other_way(w, k, 1);
    vstd::arithmetic::mul::lemma_mul_is_commutative(w, len / w);
}

/// Appends the line of the value that `cast` reads from `arr` at `i`, at
/// address `a`, after the name of a symbol there.
fn push_memory_line(display: &mut String, table: &mut SymbolTable, a: u32, arr: &[u8], i: usize, cast: Cast)
    requires
        i + cast_width(cast) <= arr@.len(),
    ensures
        final(table).syms() == old(table).syms(),
        final(table).cursor_at() == lookup_result(old(table).syms(), old(table).cursor_at(), a as usize, false).1,
        final(display)@ == old(display)@ + memory_line(old(table).syms(), old(table).cursor_at(), a as int, arr@, cast, i as int),
{
    if let Some(label) = table.lookup_ignore_functions(a as usize) {
        display.append("<");
        display.append(label.as_str());
        display.append(">:\n");
    }
    display.append(INDENT);
    u32_to_hex(display, a);
    display.append(": ");
    push_item(display, cast, arr, i);
    display.append("\n");
    proof {
        reveal_strlit("<");
        reveal_strlit(">:\n");
        reveal_strlit("   ");
        reveal_strlit(": ");
        reveal_strlit("\n");
        assert(display@ =~= old(display)@ + memory_line(old(table).syms(), old(table).cursor_at(), a as int, arr@, cast, i as int));
    }
}

/// The text of a memory view: the bytes `arr` at `offset`, read as `cast`,
/// one value a line after its address, each after the name of a symbol of
/// `symbols` there.
pub fn stringify_slice(offset: u32, arr: &[u8], cast: Cast, symbols: &Vec<SymbolDefinition>) -> (r: String)
    requires
        offset + ((arr@.len() as int) / (cast_width(cast) as int)) * (cast_width(cast) as int) <= u32::MAX,
    ensures
        r@ == memory_lines(symbols@, 0, offset as int, arr@, cast, 0),
{
    let w: usize = match cast {
        Cast::UWORD | Cast::IWORD => 4,
        Cast::UHALF | Cast::IHALF => 2,
        Cast::UBYTE | Cast::IBYTE => 1,
    };
    let count = arr.len() / w;
    let ghost goal = memory_lines(symbols@, 0, offset as int, arr@, cast, 0);
    let mut display = String::new();
    let mut table = SymbolTable::create(symbols);
    let mut k: usize = 0;
    let mut i: usize = 0;
    let mut a: u32 = offset;
    proof {
        assert(display@ + memory_lines(symbols@, table.cursor_at(), offset as int, arr@, cast, 0) =~= goal);
    }
    while k < count
        invariant
            w == cast_width(cast),
            count == (arr@.len() as int) / (w as int),
            offset + count * w <= u32::MAX,
            k <= count,
            i == k * w,
            a == offset + i,
            table.syms() == symbols@,
            display@ + memory_lines(symbols@, table.cursor_at(), offset as int, arr@, cast, k as int) == goal,
        decreases count - k,
    {
        proof {
            lemma_value_in_range(k as int, w as int, arr@.len() as int);
        }
        push_memory_line(&mut display, &mut table, a, arr, i, cast);
        k = k + 1;
        i = i + w;
        a = a + w as u32;
    }
    proof {
        assert(display@ =~= goal);
    }
    display
}

/// A range of memory to show, and how to read it.
#[derive(Clone, Copy, Debug)]
pub struct MemoryView {
    pub start: u32,
    pub end: u32,
    pub view_cast: Cast,
}

impl Default for MemoryView {
    /// The first 256 bytes, as unsigned words.
    fn default() -> (r: Self)
        ensures
            r.start == 0,
            r.end == 0xFF,
            r.view_cast == Cast::UWORD,
    {
        Self { start: 0, end: 0xFF, view_cast: Cast::UWORD }
    }
}

/// A change to a memory explorer pane.
#[derive(Debug, Clone)]
pub enum Explorer {
    SetStart(String),
    SetEnd(String),
    SetViewCast(Cast),
    Update,
}

/// The kinds of pane the window can show.
#[derive(Debug, Clone, Copy, PartialEq, Eq, Structural)]
pub enum PaneType {
    Disassembler,
    SystemState,
    MemoryExplorer,
    Trace,
}

/// What the system state pane shows of the simulated processor.
pub struct SystemView {
    pub mode: Mode,
    pub registers: Registers,
    pub privileged: bool,
    pub sp: u32,
    pub psp: u32,
    pub msp: u32,
    pub xpsr: u32,
    pub raw_ir: u32,
}

/// The name of a processor mode.
pub open spec fn mode_name(m: Mode) -> Seq<char> {
    match m {
        Mode::Thread => "Thread"@,
        Mode::Handler => "Handler"@,
    }
}

/// The lines of the general registers from `r{k}` on: the name and the
/// value in decimal.
pub open spec fn register_lines(generic: [u32; 13], k: int) -> Seq<char>
    decreases 13 - k,
{
    if k < 0 || k >= 13 {
        Seq::empty()
    } else {
        "r"@ + dec_text(k as nat) + ": "@ + dec_text(generic[k] as nat) + "\n"@ + register_lines(generic, k + 1)
    }
}

/// The text of the system state pane: the mode, the general registers in
/// decimal, then the stack pointers, the link register, the program
/// counter and the status register in hexadecimal.
pub open spec fn system_view_text(v: SystemView) -> Seq<char> {
    "mode: "@ + mode_name(v.mode) + "\n"@ + register_lines(v.registers.generic, 0) + "SP: "@
        + hex_padded(v.sp as nat, 8) + "    (MSP: "@ + hex_padded(v.msp as nat, 8) + ")(PSP: "@
        + hex_padded(v.psp as nat, 8) + ")\n"@ + "LR: "@ + hex_padded(v.registers.lr as nat, 8)
        + "\n"@ + "PC: "@ + hex_padded(v.registers.pc as nat, 8) + "\n"@ + "XPSR: "@
        + hex_padded(v.xpsr as nat, 8)
}

impl SystemView {
    /// The state of `sys` as the pane shows it.
    pub fn from_system(sys: &System) -> (r: Self)
        requires
            sys.sp_usable(),
        ensures
            r.mode == sys.mode,
            r.registers.generic == sys.registers.generic,
            r.registers.sp_main == sys.registers.sp_main,
            r.registers.sp_process == sys.registers.sp_process,
            r.registers.lr == sys.registers.lr,
            r.registers.pc == sys.registers.pc,
            r.sp == sys.current_sp(),
            r.privileged == sys.privileged(),
            r.psp == sys.registers.sp_process,
            r.msp == sys.registers.sp_main,
            r.xpsr == le_u32(sys.xpsr),
            r.raw_ir == sys.registers.pc as u32,
    {
        Self {
            mode: sys.mode,
            registers: Registers {
                generic: sys.registers.generic,
                sp_main: sys.registers.sp_main,
                sp_process: sys.registers.sp_process,
                lr: sys.registers.lr,
                pc: sys.registers.pc,
            },
            sp: sys.get_sp(),
            privileged: sys.in_privileged_mode(),
            psp: sys.registers.sp_process,
            msp: sys.registers.sp_main,
            xpsr: from_arm_bytes(sys.xpsr),
            raw_ir: sys.read_raw_ir(),
        }
    }

    /// The text of the pane.
    pub fn text(&self) -> (r: String)
        ensures
            r@ == system_view_text(*self),
    {
        let mut out = String::new();
        out.append("mode: ");
        match self.mode {
            Mode::Thread => out.append("Thread"),
            Mode::Handler => out.append("Handler"),
        }
        out.append("\n");
        proof {
            reveal_strlit("mode: ");
            reveal_strlit("Thread");
            reveal_strlit("Handler");
            reveal_strlit("\n");
            assert(out@ =~= "mode: "@ + mode_name(self.mode) + "\n"@);
        }
        let ghost head = out@;
        let mut k: usize = 0;
        while k < 13
            invariant
                k <= 13,
                head + register_lines(self.registers.generic, 0) == out@ + register_lines(self.registers.generic, k as int),
            decreases 13 - k,
        {
            let ghost before = out@;
            out.append("r");
            u32_to_b10(&mut out, k as u32);
            out.append(": ");
            u32_to_b10(&mut out, self.registers.generic[k]);
            out.append("\n");
            proof {
                reveal_strlit("r");
                reveal_strlit(": ");
                reveal_strlit("\n");
                assert(out@ =~= before + ("r"@ + dec_text(k as nat) + ": "@ + dec_text(self.registers.generic[k as int] as nat) + "\n"@));
            }
            k = k + 1;
        }
        proof {
            assert(register_lines(self.registers.generic, 13) =~= Seq::<char>::empty());
            assert(out@ =~= head + register_lines(self.registers.generic, 0));
        }
        let ghost mid = out@;
        out.append("SP: ");
        push_hex(&mut out, self.sp as u64, 8);
        out.append("    (MSP: ");
        push_hex(&mut out, self.msp as u64, 8);
        out.append(")(PSP: ");
        push_hex(&mut out, self.psp as u64, 8);
        out.append(")\n");
        out.append("LR: ");
        push_hex(&mut out, self.registers.lr as u64, 8);
        out.append("\n");
        out.append("PC: ");
        push_hex(&mut out, self.registers.pc as u64, 8);
        out.append("\n");
        out.append("XPSR: ");
        push_hex(&mut out, self.xpsr as u64, 8);
        proof {
            reveal_strlit("SP: ");
            reveal_strlit("    (MSP: ");
            reveal_strlit(")(PSP: ");
            reveal_strlit(")\n");
            reveal_strlit("LR: ");
            reveal_strlit("PC: ");
            reveal_strlit("XPSR: ");
            assert(out@ =~= system_view_text(*self));
        }
        out
    }
}

} // verus!
