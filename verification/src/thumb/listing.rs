//! The disassembly listing: instructions, labels and literal pools as the
//! disassembly view shows them.
use vstd::prelude::*;
use vstd::string::StringExecFns;
use crate::binutils::{get_set_bits, set_bits, lemma_set_bits_below};
use super::decode_operands::{
    Operands, push_char, dec_text, register_name, pair_text, pair_imm_text, reg_imm_text,
    register_list_text, special_register_name, serialise_register, serialise_register_list,
    serialise_special_register, u32_to_b10,
};
use super::PROGRAM_COUNTER;
use super::decode::{Opcode, B16, B32, opcode_mnemonic, opcode_text};
use super::interpreter::{INDENT, peek, peek_index, SymbolTable, lookup_result, lookup_defined};
use crate::binutils::{le_u16, le_u32, from_arm_bytes, from_arm_bytes_16b};
use crate::elf::decoder::{SymbolDefinition, LiteralPools, ascending, mark_positions, first_above};
use super::{HalfWord, Word, DestRegister, SrcRegister, Register};
use super::decode::{InstructionSize, spec_instruction_size, instruction_size, spec_opcode_16, spec_opcode_32, hw_decodable, is_decodable};
use super::decode_operands::{spec_operands_16, spec_operands_32, operands_32_readable, get_operands, get_operands_32b};
use crate::system::instructions::is_branch_condition;

verus! {

/// The lower case hexadecimal digit of `d` (below 16).
pub open spec fn lower_hex_digit(d: nat) -> char {
    seq!['0', '1', '2', '3', '4', '5', '6', '7', '8', '9', 'a', 'b', 'c', 'd', 'e', 'f'][d as int]
}

/// `n` in lower case hexadecimal, without leading zeros.
pub open spec fn lower_hex_digits(n: nat) -> Seq<char>
    decreases n,
{
    if n < 16 {
        seq![lower_hex_digit(n)]
    } else {
        lower_hex_digits(n / 16).push(lower_hex_digit(n % 16))
    }
}

/// `n` as `0x` and lower case hexadecimal digits, padded with zeros to at
/// least `width` digits.
pub open spec fn hex_padded(n: nat, width: nat) -> Seq<char> {
    let d = lower_hex_digits(n);
    "0x"@ + Seq::new((if width > d.len() { width - d.len() } else { 0 }) as nat, |i: int| '0') + d
}

/// The digits `d`, least significant first, as hexadecimal text, most
/// significant first.
pub open spec fn msd_hex(d: Seq<u32>) -> Seq<char> {
    Seq::new(d.len(), |k: int| lower_hex_digit(d[d.len() - 1 - k] as nat))
}

/// Appends `num` as `0x` and lower case hexadecimal digits, padded with
/// zeros to at least `width` digits.
pub fn push_hex(buffer: &mut String, num: u64, width: usize)
    requires
        width <= 16,
    ensures
        final(buffer)@ == old(buffer)@ + hex_padded(num as nat, width as nat),
{
    let dict: [char; 16] = ['0', '1', '2', '3', '4', '5', '6', '7', '8', '9', 'a', 'b', 'c', 'd', 'e', 'f'];
    proof {
        assert(dict@ =~= seq!['0', '1', '2', '3', '4', '5', '6', '7', '8', '9', 'a', 'b', 'c', 'd', 'e', 'f']);
    }
    let mut digits: Vec<u32> = Vec::new();
    let mut n = num;
    while n >= 16
        invariant
            lower_hex_digits(num as nat) == lower_hex_digits(n as nat) + msd_hex(digits@),
            forall|k: int| 0 <= k < digits@.len() ==> #[trigger] digits@[k] < 16,
        decreases n,
    {
        proof {
            let d2 = digits@.push((n % 16) as u32);
            assert(msd_hex(d2) =~= seq![lower_hex_digit((n % 16) as nat)] + msd_hex(digits@));
            assert(lower_hex_digits(n as nat) == lower_hex_digits((n / 16) as nat).push(lower_hex_digit((n % 16) as nat)));
            assert(lower_hex_digits(n as nat) + msd_hex(digits@) =~= lower_hex_digits((n / 16) as nat) + msd_hex(d2));
        }
        digits.push((n % 16) as u32);
        n = n / 16;
    }
    proof {
        let d2 = digits@.push(n as u32);
        assert(msd_hex(d2) =~= seq![lower_hex_digit(n as nat)] + msd_hex(digits@));
    }
    digits.push(n as u32);
    buffer.append("0x");
    let ghost start = buffer@;
    let mut pad = digits.len();
    while pad < width
        invariant
            width <= 16,
            pad <= (if width > digits@.len() { width as int } else { digits@.len() as int }),
            buffer@ == start + Seq::new((pad - digits@.len()) as nat, |i: int| '0'),
            digits@.len() <= pad,
        decreases width - pad,
    {
        push_char(buffer, '0');
        proof {
            assert(buffer@ =~= start + Seq::new((pad + 1 - digits@.len()) as nat, |i: int| '0'));
        }
        pad = pad + 1;
    }
    let ghost padded = buffer@;
    let mut x: usize = digits.len();
    while x > 0
        invariant
            x <= digits@.len(),
            lower_hex_digits(num as nat) == msd_hex(digits@),
            forall|k: int| 0 <= k < digits@.len() ==> #[trigger] digits@[k] < 16,
            dict@ == seq!['0', '1', '2', '3', '4', '5', '6', '7', '8', '9', 'a', 'b', 'c', 'd', 'e', 'f'],
            buffer@ == padded + msd_hex(digits@).take(digits@.len() - x),
        decreases x,
    {
        x = x - 1;
        let d = digits[x];
        push_char(buffer, dict[d as usize]);
        proof {
            assert(buffer@ =~= padded + msd_hex(digits@).take(digits@.len() - x));
        }
    }
    proof {
        reveal_strlit("0x");
        assert(msd_hex(digits@).take(digits@.len() as int) =~= msd_hex(digits@));
        assert(buffer@ =~= old(buffer)@ + hex_padded(num as nat, width as nat));
    }
}


/// A branch offset as the listing shows it: `.` for none, `. + n`
/// forwards, `.-n` backwards.
pub open spec fn shown_branch_offset(offset: i32) -> Seq<char> {
    if offset == 0 {
        "."@
    } else if offset > 0 {
        ". + "@ + dec_text(offset as nat)
    } else {
        ".-"@ + dec_text((-offset) as nat)
    }
}

fn push_branch_offset(buffer: &mut String, offset: i32)
    ensures
        final(buffer)@ == old(buffer)@ + shown_branch_offset(offset),
{
    if offset == 0 {
        buffer.append(".");
    } else if offset > 0 {
        buffer.append(". + ");
        u32_to_b10(buffer, offset as u32);
    } else {
        buffer.append(".-");
        let magnitude: u32 = (0i64 - offset as i64) as u32;
        u32_to_b10(buffer, magnitude);
    }
    proof {
        assert(buffer@ =~= old(buffer)@ + shown_branch_offset(offset));
    }
}

/// A literal as the listing shows it: `#` and the number.
pub open spec fn literal(n: u32) -> Seq<char> {
    "#"@ + dec_text(n as nat)
}

/// A register list as the listing shows it, with the base register of a
/// multiple load or store first.
pub open spec fn shown_list(base: Option<u8>, list: u16) -> Seq<char> {
    match base {
        Some(b) => "r"@ + dec_text(b as nat) + (if (1u16 << (b as u16)) & list > 0 {
            ","@
        } else {
            "!,"@
        }) + register_list_text(set_bits(list)),
        None => register_list_text(set_bits(list)),
    }
}

/// The operands `ops` as the listing shows them.
pub open spec fn shown_operands(ops: Operands) -> Seq<char> {
    match ops {
        Operands::ADD_REG_SP_IMM8(r, imm) => register_name(r.0) + ", SP, "@ + literal(imm.0),
        Operands::INCR_SP_BY_IMM7(imm) => "SP, "@ + literal(imm.0),
        Operands::INCR_SP_BY_REG(r) => "SP, "@ + register_name(r.0),
        Operands::ADR(r, imm) => reg_imm_text(r.0, imm.0),
        Operands::ASRS_Imm5(d, r, imm) => pair_imm_text(d.0, r.0, imm.0),
        Operands::COND_BRANCH(off) => shown_branch_offset(off),
        Operands::B_ALWAYS(off) => shown_branch_offset(off),
        Operands::BREAKPOINT(imm) => literal(imm.0),
        Operands::BR_LNK(off) => shown_branch_offset(off),
        Operands::BR_LNK_EXCHANGE(r) => register_name(r.0),
        Operands::BR_EXCHANGE(r) => register_name(r.0),
        Operands::CMP_Imm8(r, imm) => reg_imm_text(r.0, imm.0),
        Operands::LDR_Imm5(d, s, imm) => register_name(d.0) + ", ["@ + register_name(s.0) + ", "@ + literal(imm.0) + "]"@,
        Operands::LDR_Imm8(d, s, imm) => register_name(d.0) + ", ["@ + register_name(s.0) + ", "@ + literal(imm.0) + "]"@,
        Operands::LDR_REG(d, s, r) => register_name(d.0) + ", ["@ + pair_text(s.0, r.0) + "]"@,
        Operands::LS_Imm5(d, s, imm) => pair_imm_text(d.0, s.0, imm.0),
        Operands::MOV_REG(d, s) => pair_text(d.0, s.0),
        Operands::DestImm8(d, imm) => reg_imm_text(d.0, imm.0),
        Operands::LoadableList(base, list) => shown_list(Some(base.0), list),
        Operands::RegisterPair(d, r) => pair_text(d.0, r.0),
        Operands::RegPairImm3(d, s, imm) => pair_imm_text(d.0, s.0, imm.0),
        Operands::RegisterTriplet(d, s, a) => pair_text(d.0, s.0) + ", "@ + register_name(a.0),
        Operands::PureRegisterPair(a, b) => pair_text(a.0, b.0),
        Operands::RegisterList(list) => shown_list(None, list),
        Operands::STR_Imm5(s, base, imm) => register_name(s.0) + ", ["@ + register_name(base.0) + ", "@ + literal(imm.0) + "]"@,
        Operands::STR_Imm8(s, imm) => register_name(s.0) + ", [SP, "@ + literal(imm.0) + "]"@,
        Operands::STR_REG(s, base, o) => register_name(s.0) + ", ["@ + pair_text(base.0, o.0) + "]"@,
        Operands::SP_SUB(imm) => "SP, SP, "@ + literal(imm.0),
        Operands::Byte(imm) => literal(imm.0),
        Operands::HalfWord(imm) => literal(imm.0),
        Operands::EnableInterupt(flag) => if flag {
            "CPSID i"@
        } else {
            "CPSIE i"@
        },
        Operands::MSR(meta, src) => special_register_name(meta) + ", "@ + register_name(src.0),
        Operands::MRS(dest, meta) => register_name(dest.0) + ", "@ + special_register_name(meta),
        Operands::Nibble(imm) => literal(imm.0),
    }
}

/// Whether the listing can show `ops`: register numbers name registers,
/// lists are not empty, and a load from the literal pool at `address` has
/// an address that fits in 32 bits.
pub open spec fn shown_printable(ops: Operands, address: u32) -> bool {
    &&& super::decode_operands::operands_printable(ops, address)
    &&& ops matches Operands::LoadableList(base, list) ==> base.0 <= 15
}

/// The hint a load from the literal pool gets: the address it reads.
pub open spec fn pool_hint(ops: Operands, address: u32) -> Seq<char> {
    match ops {
        Operands::LDR_Imm8(d, s, imm) => if s.0 == 15 {
            "    //@"@ + hex_padded((((address + 4 + imm.0) as u32) & !3u32) as nat, 8)
        } else {
            Seq::empty()
        },
        Operands::LDR_Imm5(d, s, imm) => if s.0 == 15 {
            "    //@"@ + hex_padded((((address + 4 + imm.0) as u32) & !3u32) as nat, 8)
        } else {
            Seq::empty()
        },
        _ => Seq::empty(),
    }
}

fn push_literal(buffer: &mut String, n: u32)
    ensures
        final(buffer)@ == old(buffer)@ + literal(n),
{
    buffer.append("#");
    u32_to_b10(buffer, n);
    proof {
        assert(buffer@ =~= old(buffer)@ + literal(n));
    }
}

fn push_pair(buffer: &mut String, a: u8, b: u8)
    requires
        a <= 15,
        b <= 15,
    ensures
        final(buffer)@ == old(buffer)@ + pair_text(a, b),
{
    serialise_register(buffer, a);
    buffer.append(", ");
    serialise_register(buffer, b);
    proof {
        assert(buffer@ =~= old(buffer)@ + pair_text(a, b));
    }
}

fn push_list(buffer: &mut String, base: Option<u8>, list: u16)
    requires
        set_bits(list).len() > 0,
        base matches Some(b) ==> b <= 15,
    ensures
        final(buffer)@ == old(buffer)@ + shown_list(base, list),
{
    let registers = get_set_bits(list);
    proof {
        lemma_set_bits_below(list, 16);
    }
    match base {
        Some(b) => {
            buffer.append("r");
            u32_to_b10(buffer, b as u32);
            if (1u16 << (b as u16)) & list > 0 {
                buffer.append(",");
            } else {
                buffer.append("!,");
            }
        },
        None => {},
    }
    serialise_register_list(buffer, registers);
    proof {
        assert(buffer@ =~= old(buffer)@ + shown_list(base, list));
    }
}

/// Appends the operands `operands` as the listing shows them.
#[verifier::rlimit(40)]
pub fn show_operands(buffer: &mut String, operands: &Operands)
    requires
        shown_printable(*operands, 0),
    ensures
        final(buffer)@ == old(buffer)@ + shown_operands(*operands),
{
    let ghost start = old(buffer)@;
    match operands {
        Operands::ADD_REG_SP_IMM8(r, imm8) => {
            serialise_register(buffer, r.0);
            buffer.append(", SP, ");
            push_literal(buffer, imm8.0);
        },
        Operands::INCR_SP_BY_IMM7(imm7) => {
            buffer.append("SP, ");
            push_literal(buffer, imm7.0);
        },
        Operands::INCR_SP_BY_REG(r) => {
            buffer.append("SP, ");
            serialise_register(buffer, r.0);
        },
        Operands::ADR(r, imm8) => {
            serialise_register(buffer, r.0);
            buffer.append(", #");
            u32_to_b10(buffer, imm8.0);
        },
        Operands::ASRS_Imm5(d, r, imm5) => {
            push_pair(buffer, d.0, r.0);
            buffer.append(", #");
            u32_to_b10(buffer, imm5.0);
        },
        Operands::COND_BRANCH(off) => push_branch_offset(buffer, *off),
        Operands::B_ALWAYS(off) => push_branch_offset(buffer, *off),
        Operands::BREAKPOINT(imm8) => push_literal(buffer, imm8.0),
        Operands::BR_LNK(off) => push_branch_offset(buffer, *off),
        Operands::BR_LNK_EXCHANGE(r) => serialise_register(buffer, r.0),
        Operands::BR_EXCHANGE(r) => serialise_register(buffer, r.0),
        Operands::CMP_Imm8(r, imm8) => {
            serialise_register(buffer, r.0);
            buffer.append(", #");
            u32_to_b10(buffer, imm8.0);
        },
        Operands::LDR_Imm5(d, s, imm5) => {
            serialise_register(buffer, d.0);
            buffer.append(", [");
            serialise_register(buffer, s.0);
            buffer.append(", ");
            push_literal(buffer, imm5.0);
            buffer.append("]");
        },
        Operands::LDR_Imm8(d, s, imm8) => {
            serialise_register(buffer, d.0);
            buffer.append(", [");
            serialise_register(buffer, s.0);
            buffer.append(", ");
            push_literal(buffer, imm8.0);
            buffer.append("]");
        },
        Operands::LDR_REG(d, s, r) => {
            serialise_register(buffer, d.0);
            buffer.append(", [");
            push_pair(buffer, s.0, r.0);
            buffer.append("]");
        },
        Operands::LS_Imm5(d, s, imm5) => {
            push_pair(buffer, d.0, s.0);
            buffer.append(", #");
            u32_to_b10(buffer, imm5.0);
        },
        Operands::MOV_REG(d, s) => push_pair(buffer, d.0, s.0),
        Operands::DestImm8(d, imm8) => {
            serialise_register(buffer, d.0);
            buffer.append(", #");
            u32_to_b10(buffer, imm8.0);
        },
        Operands::LoadableList(base, list) => push_list(buffer, Some(base.0), *list),
        Operands::RegisterPair(d, r) => push_pair(buffer, d.0, r.0),
        Operands::RegPairImm3(d, s, imm3) => {
            push_pair(buffer, d.0, s.0);
            buffer.append(", #");
            u32_to_b10(buffer, imm3.0);
        },
        Operands::RegisterTriplet(d, s, a) => {
            push_pair(buffer, d.0, s.0);
            buffer.append(", ");
            serialise_register(buffer, a.0);
        },
        Operands::PureRegisterPair(a, b) => push_pair(buffer, a.0, b.0),
        Operands::RegisterList(list) => push_list(buffer, None, *list),
        Operands::STR_Imm5(s, base, imm5) => {
            serialise_register(buffer, s.0);
            buffer.append(", [");
            serialise_register(buffer, base.0);
            buffer.append(", ");
            push_literal(buffer, imm5.0);
            buffer.append("]");
        },
        Operands::STR_Imm8(s, imm8) => {
            serialise_register(buffer, s.0);
            buffer.append(", [SP, ");
            push_literal(buffer, imm8.0);
            buffer.append("]");
        },
        Operands::STR_REG(s, base, offset_reg) => {
            serialise_register(buffer, s.0);
            buffer.append(", [");
            push_pair(buffer, base.0, offset_reg.0);
            buffer.append("]");
        },
        Operands::SP_SUB(imm7) => {
            buffer.append("SP, SP, ");
            push_literal(buffer, imm7.0);
        },
        Operands::Byte(imm8) => push_literal(buffer, imm8.0),
        Operands::HalfWord(imm16) => push_literal(buffer, imm16.0),
        Operands::EnableInterupt(flag) => {
            if *flag {
                buffer.append("CPSID i");
            } else {
                buffer.append("CPSIE i");
            }
        },
        Operands::MSR(meta, src) => {
            serialise_special_register(buffer, meta);
            buffer.append(", ");
            serialise_register(buffer, src.0);
        },
        Operands::MRS(dest, meta) => {
            serialise_register(buffer, dest.0);
            buffer.append(", ");
            serialise_special_register(buffer, meta);
        },
        Operands::Nibble(imm4) => push_literal(buffer, imm4.0),
    }
    proof {
        reveal_strlit("#");
        reveal_strlit(", #");
        assert(buffer@ =~= start + shown_operands(*operands));
    }
}

/// The operands `operands` of the instruction at `address` as the listing
/// shows them, with the address that a load from the literal pool reads.
pub fn pretty_print(address: u32, operands: &Operands) -> (r: String)
    requires
        shown_printable(*operands, address),
    ensures
        r@ == shown_operands(*operands) + pool_hint(*operands, address),
{
    let mut line = String::new();
    show_operands(&mut line, operands);
    match operands {
        Operands::LDR_Imm8(_, src, imm8) => {
            if src.0 == PROGRAM_COUNTER {
                let hint = (address + 4 + imm8.0) & !0x3;
                line.append("    //@");
                push_hex(&mut line, hint as u64, 8);
            }
        },
        Operands::LDR_Imm5(_, src, imm5) => {
            if src.0 == PROGRAM_COUNTER {
                let hint = (address + 4 + imm5.0) & !0x3;
                line.append("    //@");
                push_hex(&mut line, hint as u64, 8);
            }
        },
        _ => {},
    }
    proof {
        assert(line@ =~= shown_operands(*operands) + pool_hint(*operands, address));
    }
    line
}

/// The address `offset` bytes from `addr`.
pub fn offset_addr(addr: u32, offset: i32) -> (r: u32)
    requires
        0 <= addr + offset <= u32::MAX,
    ensures
        r == addr + offset,
{
    if offset < 0 {
        let magnitude: u32 = (0i64 - offset as i64) as u32;
        addr - magnitude
    } else {
        addr + (offset as u32)
    }
}


/// The line a label gets before the thing it labels: an empty line, the
/// address and the name in angle brackets.
pub open spec fn label_text(addr: u32, name: Seq<char>) -> Seq<char> {
    "\n"@ + hex_padded(addr as nat, 8) + ": <"@ + name + ">:\n"@
}

/// The start of a line of the listing: the address between indents.
pub open spec fn line_head(addr: u32) -> Seq<char> {
    "   "@ + hex_padded(addr as nat, 8) + ":"@ + "   "@
}

/// The operands of an instruction as the listing shows them.
pub open spec fn pretty(addr: u32, args: Operands) -> Seq<char> {
    shown_operands(args) + pool_hint(args, addr)
}

/// The listing of a branch by `off` from `addr`: the name of the symbol at
/// the target in brackets, or the operands and the target address.
pub open spec fn branch_target_text(addr: u32, off: i32, mnemonic: Seq<char>, args: Operands, symbols: Seq<SymbolDefinition>) -> Seq<char> {
    let target = (addr + off) as u32;
    match peek_index(symbols, target as usize) {
        Some(i) => mnemonic + " ("@ + symbols[i].name@ + ")"@,
        None => mnemonic + pretty(addr, args) + "    //@"@ + hex_padded(target as nat, 8),
    }
}

/// The listing line of the instruction `code` with operands `ops` at
/// `addr`, without its label; `None` where the listing cannot show it.
pub open spec fn instruction_body(addr: u32, code: Opcode, ops: Option<Operands>, symbols: Seq<SymbolDefinition>) -> Option<Seq<char>> {
    let m = opcode_mnemonic(code)@;
    match ops {
        None => Some(line_head(addr) + m),
        Some(args) => if !shown_printable(args, addr) {
            None
        } else if code == Opcode::_16Bit(B16::CPS) {
            Some(line_head(addr) + pretty(addr, args))
        } else if code == Opcode::_16Bit(B16::B_ALWAYS) {
            match args {
                Operands::B_ALWAYS(off) => if off == 0 {
                    Some(line_head(addr) + "BAL ."@)
                } else if 0 <= addr + off <= u32::MAX {
                    Some(line_head(addr) + branch_target_text(addr, off, "BAL"@, args, symbols))
                } else {
                    None
                },
                _ => None,
            }
        } else if is_branch_condition(code) {
            match args {
                Operands::COND_BRANCH(off) => if off == 0 {
                    Some(line_head(addr) + m + " ."@)
                } else if 0 <= addr + off <= u32::MAX {
                    Some(line_head(addr) + branch_target_text(addr, off, m, args, symbols))
                } else {
                    None
                },
                _ => None,
            }
        } else if code == Opcode::_32Bit(B32::BR_AND_LNK) {
            match args {
                Operands::BR_LNK(off) => if 0 <= addr + off <= u32::MAX {
                    Some(line_head(addr) + branch_target_text(addr, off, "BL"@, args, symbols))
                } else {
                    None
                },
                _ => None,
            }
        } else {
            Some(line_head(addr) + m + " "@ + pretty(addr, args))
        },
    }
}

/// The listing line of an instruction with its label, where it has one.
pub open spec fn instruction_line(addr: u32, code: Opcode, ops: Option<Operands>, label: Option<Seq<char>>, symbols: Seq<SymbolDefinition>) -> Option<Seq<char>> {
    match instruction_body(addr, code, ops, symbols) {
        Some(body) => Some(
            match label {
                Some(name) => label_text(addr, name),
                None => Seq::empty(),
            } + body,
        ),
        None => None,
    }
}

fn push_line_head(buffer: &mut String, addr: u32)
    ensures
        final(buffer)@ == old(buffer)@ + line_head(addr),
{
    buffer.append(INDENT);
    push_hex(buffer, addr as u64, 8);
    buffer.append(":");
    buffer.append(INDENT);
    proof {
        reveal_strlit("   ");
        assert(buffer@ =~= old(buffer)@ + line_head(addr));
    }
}

fn push_pretty(buffer: &mut String, addr: u32, args: &Operands)
    requires
        shown_printable(*args, addr),
    ensures
        final(buffer)@ == old(buffer)@ + pretty(addr, *args),
{
    let text = pretty_print(addr, args);
    buffer.append(text.as_str());
}

fn push_branch_target(buffer: &mut String, addr: u32, off: i32, mnemonic: &str, args: &Operands, symbols: &Vec<SymbolDefinition>)
    requires
        0 <= addr + off <= u32::MAX,
        shown_printable(*args, addr),
    ensures
        final(buffer)@ == old(buffer)@ + branch_target_text(addr, off, mnemonic@, *args, symbols@),
{
    let target = offset_addr(addr, off);
    match peek(symbols, target as usize) {
        Some(label) => {
            buffer.append(mnemonic);
            buffer.append(" (");
            buffer.append(label.as_str());
            buffer.append(")");
        },
        None => {
            buffer.append(mnemonic);
            push_pretty(buffer, addr, args);
            buffer.append("    //@");
            push_hex(buffer, target as u64, 8);
        },
    }
    proof {
        assert(buffer@ =~= old(buffer)@ + branch_target_text(addr, off, mnemonic@, *args, symbols@));
    }
}

/// The listing line of the instruction `code` with operands `operands` at
/// `byte_offset`, after the label `maybe_label` where there is one;
/// branches name the symbol at their target.
pub fn symbol_aware_disassemble(
    byte_offset: u32,
    code: Opcode,
    operands: Option<Operands>,
    maybe_label: Option<&String>,
    symbols: &Vec<SymbolDefinition>,
) -> (r: String)
    requires
        instruction_body(byte_offset, code, operands, symbols@) is Some,
    ensures
        Some(r@) == instruction_line(byte_offset, code, operands, match maybe_label {
            Some(l) => Some(l@),
            None => None::<Seq<char>>,
        }, symbols@),
{
    let mut line = String::new();
    if let Some(label) = maybe_label {
        line.append("\n");
        push_hex(&mut line, byte_offset as u64, 8);
        line.append(": <");
        line.append(label.as_str());
        line.append(">:\n");
    }
    let ghost head = line@;
    let m = opcode_text(&code);
    match operands {
        Some(args) => {
            if code == Opcode::_16Bit(B16::CPS) {
                push_line_head(&mut line, byte_offset);
                push_pretty(&mut line, byte_offset, &args);
            } else if code == Opcode::_16Bit(B16::B_ALWAYS) {
                match args {
                    Operands::B_ALWAYS(offset) => {
                        push_line_head(&mut line, byte_offset);
                        if offset == 0 {
                            line.append("BAL .");
                        } else {
                            push_branch_target(&mut line, byte_offset, offset, "BAL", &args, symbols);
                        }
                    },
                    _ => {},
                }
            } else if is_conditional(&code) {
                match args {
                    Operands::COND_BRANCH(offset) => {
                        push_line_head(&mut line, byte_offset);
                        if offset == 0 {
                            line.append(m);
                            line.append(" .");
                        } else {
                            push_branch_target(&mut line, byte_offset, offset, m, &args, symbols);
                        }
                    },
                    _ => {},
                }
            } else if code == Opcode::_32Bit(B32::BR_AND_LNK) {
                match args {
                    Operands::BR_LNK(offset) => {
                        push_line_head(&mut line, byte_offset);
                        push_branch_target(&mut line, byte_offset, offset, "BL", &args, symbols);
                    },
                    _ => {},
                }
            } else {
                push_line_head(&mut line, byte_offset);
                line.append(m);
                line.append(" ");
                push_pretty(&mut line, byte_offset, &args);
            }
        },
        None => {
            push_line_head(&mut line, byte_offset);
            line.append(m);
        },
    }
    proof {
        reveal_strlit("\n");
        reveal_strlit(": <");
        reveal_strlit(">:\n");
        assert(line@ =~= match maybe_label {
            Some(l) => label_text(byte_offset, l@),
            None => Seq::empty(),
        } + instruction_body(byte_offset, code, operands, symbols@)->0);
    }
    line
}

/// A three register instruction lists its registers in the order of its
/// operands: the destination, then the first and the second source, each
/// separated by a comma; after the destination comes the text of the pair
/// of sources. The listing and the operand serialisation agree on it.
pub proof fn lemma_triplet_text_in_order(d: u8, s: u8, a: u8, address: u32)
    ensures
        ({
            let ops = Operands::RegisterTriplet(DestRegister(d), SrcRegister(s), Register(a));
            let text = register_name(d) + ", "@ + register_name(s) + ", "@ + register_name(a);
            &&& shown_operands(ops) == text
            &&& super::decode_operands::operand_text(ops, address) == text
            &&& shown_operands(ops) == register_name(d) + ", "@ + shown_operands(
                Operands::PureRegisterPair(Register(s), Register(a)),
            )
        }),
{
    let ops = Operands::RegisterTriplet(DestRegister(d), SrcRegister(s), Register(a));
    assert(shown_operands(ops) =~= register_name(d) + ", "@ + register_name(s) + ", "@ + register_name(a));
    assert(super::decode_operands::operand_text(ops, address) =~= register_name(d) + ", "@ + register_name(s)
        + ", "@ + register_name(a));
    assert(shown_operands(ops) =~= register_name(d) + ", "@ + shown_operands(
        Operands::PureRegisterPair(Register(s), Register(a)),
    ));
}

/// Two register operands are listed first register first, split by a
/// comma; a load with a register offset lists the destination, then the
/// base and the offset in square brackets. The listing and the operand
/// serialisation agree on it.
pub proof fn lemma_register_pair_text_in_order(x: u8, y: u8, z: u8, address: u32)
    ensures
        ({
            let pair = register_name(x) + ", "@ + register_name(y);
            let load = register_name(x) + ", ["@ + register_name(y) + ", "@ + register_name(z) + "]"@;
            &&& shown_operands(Operands::RegisterPair(DestRegister(x), Register(y))) == pair
            &&& shown_operands(Operands::PureRegisterPair(Register(x), Register(y))) == pair
            &&& shown_operands(Operands::MOV_REG(DestRegister(x), SrcRegister(y))) == pair
            &&& super::decode_operands::operand_text(Operands::RegisterPair(DestRegister(x), Register(y)), address) == pair
            &&& super::decode_operands::operand_text(Operands::PureRegisterPair(Register(x), Register(y)), address) == pair
            &&& super::decode_operands::operand_text(Operands::MOV_REG(DestRegister(x), SrcRegister(y)), address) == pair
            &&& shown_operands(Operands::LDR_REG(DestRegister(x), SrcRegister(y), Register(z))) == load
            &&& super::decode_operands::operand_text(Operands::LDR_REG(DestRegister(x), SrcRegister(y), Register(z)), address)
                == load
        }),
{
    let load = register_name(x) + ", ["@ + register_name(y) + ", "@ + register_name(z) + "]"@;
    assert(shown_operands(Operands::LDR_REG(DestRegister(x), SrcRegister(y), Register(z))) =~= load);
    assert(super::decode_operands::operand_text(Operands::LDR_REG(DestRegister(x), SrcRegister(y), Register(z)), address)
        =~= load);
}

/// Whether the operands can be written as text at `address`.
fn ops_printable(ops: &Operands, address: u32) -> (r: bool)
    ensures
        r == shown_printable(*ops, address),
{
    proof {
        match *ops {
            Operands::LoadableList(_, list) => crate::binutils::lemma_set_bits_nonempty(list),
            Operands::RegisterList(list) => crate::binutils::lemma_set_bits_nonempty(list),
            _ => {},
        }
    }
    match ops {
        Operands::ADD_REG_SP_IMM8(r, _) => r.0 <= 15,
        Operands::INCR_SP_BY_REG(r) => r.0 <= 15,
        Operands::ADR(r, _) => r.0 <= 15,
        Operands::ASRS_Imm5(d, r, _) => d.0 <= 15 && r.0 <= 15,
        Operands::BR_LNK_EXCHANGE(r) => r.0 <= 15,
        Operands::BR_EXCHANGE(r) => r.0 <= 15,
        Operands::CMP_Imm8(r, _) => r.0 <= 15,
        Operands::LDR_Imm5(d, s, imm) => d.0 <= 15 && s.0 <= 15 && (address as u64) + 4 + (imm.0 as u64) <= 0xFFFF_FFFF,
        Operands::LDR_Imm8(d, s, imm) => d.0 <= 15 && s.0 <= 15 && (address as u64) + 4 + (imm.0 as u64) <= 0xFFFF_FFFF,
        Operands::LDR_REG(d, s, r) => d.0 <= 15 && s.0 <= 15 && r.0 <= 15,
        Operands::LS_Imm5(d, s, _) => d.0 <= 15 && s.0 <= 15,
        Operands::MOV_REG(d, s) => d.0 <= 15 && s.0 <= 15,
        Operands::DestImm8(d, _) => d.0 <= 15,
        Operands::LoadableList(base, list) => base.0 <= 15 && *list != 0,
        Operands::RegisterPair(d, r) => d.0 <= 15 && r.0 <= 15,
        Operands::RegPairImm3(d, s, _) => d.0 <= 15 && s.0 <= 15,
        Operands::RegisterTriplet(d, s, a) => d.0 <= 15 && s.0 <= 15 && a.0 <= 15,
        Operands::PureRegisterPair(a, b) => a.0 <= 15 && b.0 <= 15,
        Operands::RegisterList(list) => *list != 0,
        Operands::STR_Imm5(s, base, _) => s.0 <= 15 && base.0 <= 15,
        Operands::STR_Imm8(s, _) => s.0 <= 15,
        Operands::STR_REG(s, base, o) => s.0 <= 15 && base.0 <= 15 && o.0 <= 15,
        Operands::MSR(_, src) => src.0 <= 15,
        Operands::MRS(dest, _) => dest.0 <= 15,
        _ => true,
    }
}

/// Whether a branch at `addr` by `off` lands within the address space.
fn target_in_range(addr: u32, off: i32) -> (r: bool)
    ensures
        r == (0 <= addr + off <= u32::MAX),
{
    let t: i64 = addr as i64 + off as i64;
    0 <= t && t <= 0xFFFF_FFFF
}

/// Whether the instruction `code` with `ops` at `addr` can be written as
/// text.
fn body_defined(addr: u32, code: &Opcode, ops: &Option<Operands>, symbols: &Vec<SymbolDefinition>) -> (r: bool)
    ensures
        r == (instruction_body(addr, *code, *ops, symbols@) is Some),
{
    match ops {
        None => true,
        Some(args) => {
            if !ops_printable(args, addr) {
                false
            } else if *code == Opcode::_16Bit(B16::CPS) {
                true
            } else if *code == Opcode::_16Bit(B16::B_ALWAYS) {
                match args {
                    Operands::B_ALWAYS(off) => *off == 0 || target_in_range(addr, *off),
                    _ => false,
                }
            } else if is_conditional(code) {
                match args {
                    Operands::COND_BRANCH(off) => *off == 0 || target_in_range(addr, *off),
                    _ => false,
                }
            } else if *code == Opcode::_32Bit(B32::BR_AND_LNK) {
                match args {
                    Operands::BR_LNK(off) => target_in_range(addr, *off),
                    _ => false,
                }
            } else {
                true
            }
        },
    }
}

/// Whether the operands of the 32 bit instruction `code` can be read from
/// `word`: a special register move must name a known register.
fn readable_32(code: &Opcode, word: Word) -> (r: bool)
    requires
        *code is _32Bit,
    ensures
        r == operands_32_readable(code->_32Bit_0, word),
{
    match code {
        Opcode::_32Bit(op) => {
            if *op == B32::MSR || *op == B32::MRS {
                let b = word[2];
                b <= 3 || (5 <= b && b <= 9) || b == 16 || b == 20
            } else {
                true
            }
        },
        Opcode::_16Bit(_) => true,
    }
}

/// Whether `code` is a conditional branch, or the unconditional one.
fn is_conditional(code: &Opcode) -> (r: bool)
    ensures
        r == is_branch_condition(*code),
{
    match code {
        Opcode::_16Bit(op) => match op {
            B16::BEQ | B16::BNEQ | B16::B_CARRY_IS_SET | B16::B_CARRY_IS_CLEAR | B16::B_IF_NEGATIVE
            | B16::B_IF_POSITIVE | B16::B_IF_OVERFLOW | B16::B_IF_NO_OVERFLOW
            | B16::B_UNSIGNED_HIGHER | B16::B_UNSIGNED_LOWER_OR_SAME | B16::B_GTE | B16::B_LT
            | B16::B_GT | B16::B_LTE | B16::B_ALWAYS => true,
            _ => false,
        },
        _ => false,
    }
}


/// What stands between the address of a line of a literal pool and the
/// data: a space in the listing, an indent in the printed form.
pub open spec fn pool_gap(printed: bool) -> Seq<char> {
    if printed {
        "   "@
    } else {
        " "@
    }
}

/// The label line of a literal pool; the printed form has no colon after
/// the address.
pub open spec fn pool_label_text(printed: bool, addr: u32, name: Seq<char>) -> Seq<char> {
    if printed {
        "\n"@ + hex_padded(addr as nat, 8) + " <"@ + name + ">:\n"@
    } else {
        label_text(addr, name)
    }
}

/// The label line of a byte inside a literal pool: an empty line, the
/// address and the name in angle brackets.
pub open spec fn inner_label_text(addr: u32, name: Seq<char>) -> Seq<char> {
    "\n"@ + hex_padded(addr as nat, 8) + ": <"@ + name + ">:"@
}

/// The listing of the bytes of a literal pool at `abs` from `i` on, after
/// the text `acc`, with the symbol table cursor at `c`; four bytes a line,
/// each line after its label; `None` where a lookup cannot run.
pub open spec fn pool_bytes(printed: bool, syms: Seq<SymbolDefinition>, c: int, abs: u32, pool: Seq<u8>, i: int, acc: Seq<char>) -> Option<(Seq<char>, int)>
    decreases pool.len() - i,
{
    if i < 0 || i >= pool.len() {
        Some((acc, c))
    } else {
        let a = (abs + i) as u32;
        if i != 0 && !lookup_defined(syms, c, a as usize, true) {
            None
        } else {
            let (l, c1) = if i != 0 {
                lookup_result(syms, c, a as usize, true)
            } else {
                (None, c)
            };
            let acc1 = acc + match l {
                Some(k) => inner_label_text(a, syms[k].name@),
                None => Seq::empty(),
            };
            let acc2 = if i % 4 == 0 {
                acc1 + (if i != 0 {
                    "\n"@
                } else {
                    Seq::empty()
                }) + "   "@ + hex_padded(a as nat, 8) + ":"@ + pool_gap(printed) + ".byte"@
            } else {
                acc1
            };
            pool_bytes(printed, syms, c1, abs, pool, i + 1, acc2 + " "@ + hex_padded(pool[i] as nat, 2) + " "@)
        }
    }
}

/// The listing of the literal pool `pool` at `abs`, with the symbol table
/// cursor at `c`: its label, then a half word, a word, or its bytes; with
/// where the cursor is left.
pub open spec fn pool_text(printed: bool, syms: Seq<SymbolDefinition>, c: int, abs: u32, pool: Seq<u8>) -> Option<(Seq<char>, int)> {
    if !lookup_defined(syms, c, abs as usize, true) {
        None
    } else {
        let (l, c1) = lookup_result(syms, c, abs as usize, true);
        let head = match l {
            Some(k) => pool_label_text(printed, abs, syms[k].name@),
            None => Seq::empty(),
        };
        if pool.len() == 2 {
            Some((head + "   "@ + hex_padded(abs as nat, 8) + ":"@ + pool_gap(printed) + ".2byte "@ + hex_padded(le_u16([pool[0], pool[1]]) as nat, 1), c1))
        } else if pool.len() == 4 {
            Some((head + "   "@ + hex_padded(abs as nat, 8) + ":"@ + pool_gap(printed) + ".4byte "@ + hex_padded(le_u32([pool[0], pool[1], pool[2], pool[3]]) as nat, 1), c1))
        } else {
            pool_bytes(printed, syms, c1, abs, pool, 0, head)
        }
    }
}

/// The listing of the literal pool that `bytes` holds from `start` to
/// `end`, at address `byte_offset`.
fn pool_line(sym_table: &mut SymbolTable, bytes: &[u8], start: usize, end: usize, byte_offset: u32, printed: bool) -> (r: Option<String>)
    requires
        start <= end <= bytes@.len(),
        byte_offset + (end - start) <= u32::MAX,
    ensures
        final(sym_table).syms() == old(sym_table).syms(),
        match r {
            Some(t) => pool_text(printed, old(sym_table).syms(), old(sym_table).cursor_at(), byte_offset, bytes@.subrange(start as int, end as int))
                == Some((t@, final(sym_table).cursor_at())),
            None => pool_text(printed, old(sym_table).syms(), old(sym_table).cursor_at(), byte_offset, bytes@.subrange(start as int, end as int)) is None,
        },
{
    let ghost pool = bytes@.subrange(start as int, end as int);
    let ghost syms = sym_table.syms();
    if !sym_table.lookup_ok(byte_offset as usize) {
        return None;
    }
    let symbol = sym_table.lookup(byte_offset as usize);
    let mut line = String::new();
    if let Some(name) = symbol {
        line.append("\n");
        push_hex(&mut line, byte_offset as u64, 8);
        if printed {
            line.append(" <");
        } else {
            line.append(": <");
        }
        line.append(name.as_str());
        line.append(">:\n");
    }
    proof {
        reveal_strlit("\n");
        reveal_strlit(": <");
        reveal_strlit(" <");
        reveal_strlit(">:\n");
    }
    let gap: &str = if printed {
        INDENT
    } else {
        " "
    };
    proof {
        reveal_strlit("   ");
        reveal_strlit(" ");
        assert(gap@ == pool_gap(printed));
    }
    let len = end - start;
    if len == 2 {
        let hw = from_arm_bytes_16b([bytes[start], bytes[start + 1]]);
        line.append(INDENT);
        push_hex(&mut line, byte_offset as u64, 8);
        line.append(":");
        line.append(gap);
        line.append(".2byte ");
        push_hex(&mut line, hw as u64, 1);
        proof {
            reveal_strlit("   ");
            reveal_strlit(":");
            reveal_strlit(".2byte ");
            assert(pool[0] == bytes@[start as int] && pool[1] == bytes@[start + 1]);
        }
        return Some(line);
    }
    if len == 4 {
        let wrd = from_arm_bytes([bytes[start], bytes[start + 1], bytes[start + 2], bytes[start + 3]]);
        line.append(INDENT);
        push_hex(&mut line, byte_offset as u64, 8);
        line.append(":");
        line.append(gap);
        line.append(".4byte ");
        push_hex(&mut line, wrd as u64, 1);
        proof {
            reveal_strlit("   ");
            reveal_strlit(":");
            reveal_strlit(".4byte ");
            assert(pool[0] == bytes@[start as int] && pool[1] == bytes@[start + 1]);
            assert(pool[2] == bytes@[start + 2] && pool[3] == bytes@[start + 3]);
        }
        return Some(line);
    }
    let ghost goal = pool_text(printed, old(sym_table).syms(), old(sym_table).cursor_at(), byte_offset, pool);
    let mut i: usize = 0;
    while i < len
        invariant
            start <= end <= bytes@.len(),
            len == end - start,
            pool == bytes@.subrange(start as int, end as int),
            byte_offset + len <= u32::MAX,
            sym_table.syms() == syms,
            syms == old(sym_table).syms(),
            goal == pool_text(printed, old(sym_table).syms(), old(sym_table).cursor_at(), byte_offset, pool),
            goal == pool_bytes(printed, syms, sym_table.cursor_at(), byte_offset, pool, i as int, line@),
            gap@ == pool_gap(printed),
        decreases len - i,
    {
        let a = byte_offset + i as u32;
        let ghost c0 = sym_table.cursor_at();
        let ghost acc0 = line@;
        if i != 0 {
            if !sym_table.lookup_ok(a as usize) {
                return None;
            }
            let inner_symbol = sym_table.lookup(a as usize);
            if let Some(name) = inner_symbol {
                line.append("\n");
                push_hex(&mut line, a as u64, 8);
                line.append(": <");
                line.append(name.as_str());
                line.append(">:");
            }
        }
        let ghost lr = if i != 0 {
            lookup_result(syms, c0, a as usize, true)
        } else {
            (None, c0)
        };
        let ghost acc1 = acc0 + match lr.0 {
            Some(k) => inner_label_text(a, syms[k].name@),
            None => Seq::empty(),
        };
        proof {
            reveal_strlit("\n");
            reveal_strlit(": <");
            reveal_strlit(">:");
            assert(line@ =~= acc1);
            assert(sym_table.cursor_at() == lr.1);
        }
        if i % 4 == 0 {
            if i != 0 {
                line.append("\n");
            }
            line.append(INDENT);
            push_hex(&mut line, a as u64, 8);
            line.append(":");
            line.append(gap);
            line.append(".byte");
        }
        let ghost acc2 = if i % 4 == 0 {
            acc1 + (if i != 0 {
                "\n"@
            } else {
                Seq::empty()
            }) + "   "@ + hex_padded(a as nat, 8) + ":"@ + pool_gap(printed) + ".byte"@
        } else {
            acc1
        };
        proof {
            reveal_strlit("   ");
            reveal_strlit(":");
            reveal_strlit(".byte");
            assert(line@ =~= acc2);
        }
        line.append(" ");
        push_hex(&mut line, bytes[start + i] as u64, 2);
        line.append(" ");
        proof {
            assert(pool[i as int] == bytes@[start + i]);
            assert(line@ =~= acc2 + " "@ + hex_padded(pool[i as int] as nat, 2) + " "@);
            assert(pool_bytes(printed, syms, c0, byte_offset, pool, i as int, acc0) == pool_bytes(printed, syms, lr.1, byte_offset, pool, i + 1, acc2 + " "@ + hex_padded(pool[i as int] as nat, 2) + " "@));
        }
        i = i + 1;
    }
    Some(line)
}


/// Where the literal pool that starts at `abs` ends: at the first data or
/// code mark after it.
pub open spec fn pool_end(data: Seq<usize>, text: Seq<usize>, abs: usize) -> Option<usize> {
    match (first_above(data, abs, 0), first_above(text, abs, 0)) {
        (Some(d), Some(t)) => Some(if d < t { d } else { t }),
        (Some(d), None) => Some(d),
        (None, Some(t)) => Some(t),
        (None, None) => None,
    }
}

/// The listing of `bytes`, loaded at `off`, from byte `i` on, with the
/// symbol table cursor at `c`; `data` and `text` are the sorted positions of
/// the data and code marks. A data mark starts a literal pool, shown up to
/// the next mark; elsewhere an instruction is decoded and shown after its
/// label. `None` where the listing cannot be made.
pub open spec fn walk(printed: bool, bytes: Seq<u8>, off: usize, syms: Seq<SymbolDefinition>, data: Seq<usize>, text: Seq<usize>, i: int, c: int) -> Option<Seq<Seq<char>>>
    decreases bytes.len() - i,
{
    if i < 0 || i >= bytes.len() {
        Some(Seq::empty())
    } else {
        let abs = (i + off) as usize;
        if data.contains(abs) {
            let last = match pool_end(data, text, abs) {
                Some(e) => if e - off < bytes.len() {
                    e - off
                } else {
                    bytes.len() as int
                },
                None => bytes.len() as int,
            };
            if last <= i {
                None
            } else {
                match pool_text(printed, syms, c, abs as u32, bytes.subrange(i, last)) {
                    Some((t, c2)) => match walk(printed, bytes, off, syms, data, text, last, c2) {
                        Some(rest) => Some(seq![t] + rest),
                        None => None,
                    },
                    None => None,
                }
            }
        } else if i + 2 > bytes.len() || !lookup_defined(syms, c, abs, true) {
            None
        } else {
            let hw: HalfWord = [bytes[i], bytes[i + 1]];
            let (l, c1) = lookup_result(syms, c, abs, true);
            let label = match l {
                Some(k) => Some(syms[k].name@),
                None => None,
            };
            if spec_instruction_size(hw) is B16 {
                if !hw_decodable(hw) {
                    None
                } else {
                    let code = spec_opcode_16(hw);
                    match instruction_line(abs as u32, code, spec_operands_16(code->_16Bit_0, hw), label, syms) {
                        Some(t) => match walk(printed, bytes, off, syms, data, text, i + 2, c1) {
                            Some(rest) => Some(seq![t] + rest),
                            None => None,
                        },
                        None => None,
                    }
                }
            } else if i + 4 > bytes.len() {
                None
            } else {
                let w: Word = [bytes[i], bytes[i + 1], bytes[i + 2], bytes[i + 3]];
                let code = spec_opcode_32(w);
                if !operands_32_readable(code->_32Bit_0, w) {
                    None
                } else {
                    match instruction_line(abs as u32, code, Some(spec_operands_32(code->_32Bit_0, w)), label, syms) {
                        Some(t) => match walk(printed, bytes, off, syms, data, text, i + 4, c1) {
                            Some(rest) => Some(seq![t] + rest),
                            None => None,
                        },
                        None => None,
                    }
                }
            }
        }
    }
}

/// `p` holds the marks among `symbols`, sorted.
pub open spec fn pools_of(p: LiteralPools, symbols: Seq<SymbolDefinition>) -> bool {
    &&& ascending(p.data())
    &&& ascending(p.text())
    &&& p.data().to_multiset() == mark_positions(symbols, "$d"@).to_multiset()
    &&& p.text().to_multiset() == mark_positions(symbols, "$t"@).to_multiset()
}

/// The texts of a list of strings.
pub open spec fn line_texts(v: Seq<String>) -> Seq<Seq<char>> {
    v.map_values(|s: String| s@)
}

/// The listing of `bytes` from byte `i` on, given the entry there and
/// where the next one starts: that entry before the listing from there, or
/// `None` where that cannot be made.
pub open spec fn walk_on(printed: bool, bytes: Seq<u8>, off: usize, syms: Seq<SymbolDefinition>, data: Seq<usize>, text: Seq<usize>, t: Seq<char>, next: int, c: int) -> Option<Seq<Seq<char>>> {
    match walk(printed, bytes, off, syms, data, text, next, c) {
        Some(rest) => Some(seq![t] + rest),
        None => None,
    }
}

/// One entry of the listing of `bytes` from byte `i` on, and where the
/// next entry starts; `None` where the listing cannot be made there.
#[verifier::rlimit(100)]
fn disasm_step(
    bytes: &[u8],
    section_offset: usize,
    symbols: &Vec<SymbolDefinition>,
    pools: &LiteralPools,
    sym_table: &mut SymbolTable,
    i: usize,
    printed: bool,
) -> (r: Option<(String, usize)>)
    requires
        section_offset + bytes@.len() <= u32::MAX,
        i < bytes@.len(),
        old(sym_table).syms() == symbols@,
    ensures
        final(sym_table).syms() == symbols@,
        match r {
            Some((t, next)) => {
                &&& i < next <= bytes@.len()
                &&& walk(printed, bytes@, section_offset, symbols@, pools.data(), pools.text(), i as int, old(sym_table).cursor_at())
                    == walk_on(printed, bytes@, section_offset, symbols@, pools.data(), pools.text(), t@, next as int, final(sym_table).cursor_at())
            },
            None => walk(printed, bytes@, section_offset, symbols@, pools.data(), pools.text(), i as int, old(sym_table).cursor_at()) is None,
        },
{
    let abs = i + section_offset;
    match pools.get_pool_at(abs) {
        Some(pool) => {
            let relative_start = pool.start - section_offset;
            let last = match pool.end {
                Some(end) => {
                    if end < section_offset {
                        0
                    } else {
                        let relative_end = end - section_offset;
                        if relative_end < bytes.len() {
                            relative_end
                        } else {
                            bytes.len()
                        }
                    }
                },
                None => bytes.len(),
            };
            if last <= relative_start {
                return None;
            }
            match pool_line(sym_table, bytes, relative_start, last, abs as u32, printed) {
                Some(out) => Some((out, last)),
                None => None,
            }
        },
        None => {
            if bytes.len() - i < 2 || !sym_table.lookup_ok(abs) {
                return None;
            }
            let hw: [u8; 2] = [bytes[i], bytes[i + 1]];
            let maybe_label = sym_table.lookup(abs);
            match instruction_size(hw) {
                InstructionSize::B16 => {
                    if !is_decodable(hw) {
                        return None;
                    }
                    let thumb_instruction = Opcode::from_hw(&hw);
                    let args = get_operands(&thumb_instruction, hw);
                    if !body_defined(abs as u32, &thumb_instruction, &args, symbols) {
                        return None;
                    }
                    let line = symbol_aware_disassemble(abs as u32, thumb_instruction, args, maybe_label, symbols);
                    Some((line, i + 2))
                },
                InstructionSize::B32 => {
                    if bytes.len() - i < 4 {
                        return None;
                    }
                    let word: [u8; 4] = [bytes[i], bytes[i + 1], bytes[i + 2], bytes[i + 3]];
                    let instruction_32bit = Opcode::from_word(&word);
                    if !readable_32(&instruction_32bit, word) {
                        return None;
                    }
                    let args = get_operands_32b(&instruction_32bit, word);
                    if !body_defined(abs as u32, &instruction_32bit, &args, symbols) {
                        return None;
                    }
                    let line = symbol_aware_disassemble(abs as u32, instruction_32bit, args, maybe_label, symbols);
                    Some((line, i + 4))
                },
            }
        },
    }
}

/// The entries of the listing of `bytes` loaded at `section_offset`, in
/// the listing's form or in the printed one, or `None` where the listing
/// cannot be made.
fn try_listing(bytes: &[u8], section_offset: usize, symbols: &Vec<SymbolDefinition>, printed: bool) -> (r: Option<Vec<String>>)
    requires
        section_offset + bytes@.len() <= u32::MAX,
    ensures
        exists|p: LiteralPools| #[trigger] pools_of(p, symbols@) && match r {
            Some(v) => Some(line_texts(v@)) == walk(printed, bytes@, section_offset, symbols@, p.data(), p.text(), 0, 0),
            None => walk(printed, bytes@, section_offset, symbols@, p.data(), p.text(), 0, 0) is None,
        },
{
    let pools = LiteralPools::create_from_list(symbols);
    proof {
        assert(pools_of(pools, symbols@));
    }
    let ghost data = pools.data();
    let ghost text = pools.text();
    let ghost goal = walk(printed, bytes@, section_offset, symbols@, data, text, 0, 0);
    let mut sym_table = SymbolTable::create(symbols);
    let mut result: Vec<String> = Vec::new();
    let mut i: usize = 0;
    while i < bytes.len()
        invariant
            section_offset + bytes@.len() <= u32::MAX,
            data == pools.data(),
            text == pools.text(),
            sym_table.syms() == symbols@,
            i <= bytes@.len(),
            pools_of(pools, symbols@),
            goal == walk(printed, bytes@, section_offset, symbols@, data, text, 0, 0),
            goal == match walk(printed, bytes@, section_offset, symbols@, data, text, i as int, sym_table.cursor_at()) {
                Some(rest) => Some(line_texts(result@) + rest),
                None => None,
            },
        decreases bytes@.len() - i,
    {
        let ghost before = result@;
        match disasm_step(bytes, section_offset, symbols, &pools, &mut sym_table, i, printed) {
            Some((line, next)) => {
                result.push(line);
                proof {
                    assert(line_texts(result@) =~= line_texts(before).push(line@));
                    match walk(printed, bytes@, section_offset, symbols@, data, text, next as int, sym_table.cursor_at()) {
                        Some(rest) => {
                            assert(line_texts(before) + (seq![line@] + rest) =~= line_texts(result@) + rest);
                        },
                        None => {},
                    }
                }
                i = next;
            },
            None => {
                return None;
            },
        }
    }
    proof {
        assert(line_texts(result@) + Seq::<Seq<char>>::empty() =~= line_texts(result@));
    }
    Some(result)
}

/// The entries of the listing of `bytes` loaded at `section_offset`, in
/// the listing's form or in the printed one.
fn listing(bytes: &[u8], section_offset: usize, symbols: &Vec<SymbolDefinition>, printed: bool) -> (r: Vec<String>)
    requires
        section_offset + bytes@.len() <= u32::MAX,
        forall|p: LiteralPools| #[trigger] pools_of(p, symbols@) ==> walk(printed, bytes@, section_offset, symbols@, p.data(), p.text(), 0, 0) is Some,
    ensures
        exists|p: LiteralPools| #[trigger] pools_of(p, symbols@) && Some(line_texts(r@)) == walk(printed, bytes@, section_offset, symbols@, p.data(), p.text(), 0, 0),
{
    match try_listing(bytes, section_offset, symbols, printed) {
        Some(v) => v,
        None => {
            proof {
                let p = choose|p: LiteralPools| #[trigger] pools_of(p, symbols@) && walk(printed, bytes@, section_offset, symbols@, p.data(), p.text(), 0, 0) is None;
                assert(pools_of(p, symbols@));
                assert(false);
            }
            Vec::new()
        },
    }
}

/// The listing of the code `bytes` loaded at `section_offset`: one entry
/// for each instruction and each literal pool, in order, each after its
/// label, with branch targets named by `symbols`.
pub fn disasm_text(bytes: &[u8], section_offset: usize, symbols: &Vec<SymbolDefinition>) -> (r: Vec<String>)
    requires
        section_offset + bytes@.len() <= u32::MAX,
        forall|p: LiteralPools| #[trigger] pools_of(p, symbols@) ==> walk(false, bytes@, section_offset, symbols@, p.data(), p.text(), 0, 0) is Some,
    ensures
        exists|p: LiteralPools| #[trigger] pools_of(p, symbols@) && Some(line_texts(r@)) == walk(false, bytes@, section_offset, symbols@, p.data(), p.text(), 0, 0),
{
    listing(bytes, section_offset, symbols, false)
}

/// The listing of `disasm_text`, or `None` where the code cannot be
/// listed: bytes that end inside an instruction, an encoding or operands
/// that cannot be written, a branch out of the address space, or an even
/// address before the first symbol.
pub fn try_disasm_text(bytes: &[u8], section_offset: usize, symbols: &Vec<SymbolDefinition>) -> (r: Option<Vec<String>>)
    requires
        section_offset + bytes@.len() <= u32::MAX,
    ensures
        exists|p: LiteralPools| #[trigger] pools_of(p, symbols@) && match r {
            Some(v) => Some(line_texts(v@)) == walk(false, bytes@, section_offset, symbols@, p.data(), p.text(), 0, 0),
            None => walk(false, bytes@, section_offset, symbols@, p.data(), p.text(), 0, 0) is None,
        },
{
    try_listing(bytes, section_offset, symbols, false)
}

/// The lines that `bytes` loaded at `section_offset` print as: the entries
/// of the listing, with the literal pools in the printed form.
pub fn assembly_lines(bytes: &[u8], section_offset: usize, symbols: &Vec<SymbolDefinition>) -> (r: Vec<String>)
    requires
        section_offset + bytes@.len() <= u32::MAX,
        forall|p: LiteralPools| #[trigger] pools_of(p, symbols@) ==> walk(true, bytes@, section_offset, symbols@, p.data(), p.text(), 0, 0) is Some,
    ensures
        exists|p: LiteralPools| #[trigger] pools_of(p, symbols@) && Some(line_texts(r@)) == walk(true, bytes@, section_offset, symbols@, p.data(), p.text(), 0, 0),
{
    listing(bytes, section_offset, symbols, true)
}

/// The lines of `assembly_lines`, or `None` where the code cannot be
/// listed.
pub fn try_assembly_lines(bytes: &[u8], section_offset: usize, symbols: &Vec<SymbolDefinition>) -> (r: Option<Vec<String>>)
    requires
        section_offset + bytes@.len() <= u32::MAX,
    ensures
        exists|p: LiteralPools| #[trigger] pools_of(p, symbols@) && match r {
            Some(v) => Some(line_texts(v@)) == walk(true, bytes@, section_offset, symbols@, p.data(), p.text(), 0, 0),
            None => walk(true, bytes@, section_offset, symbols@, p.data(), p.text(), 0, 0) is None,
        },
{
    try_listing(bytes, section_offset, symbols, true)
}

} // verus!
