//! Disassembly: instructions as text, and the searches over it.
use vstd::prelude::*;
use vstd::string::{StringExecFns, StrSliceExecFns};
use super::decode::{Opcode, B16, opcode_mnemonic, serialise_opcode};
use crate::elf::decoder::{SymbolDefinition, SymbolType};
use super::decode_operands::{Operands, operand_text, operands_printable, serialise_operand, hex_text, u32_to_hex};
pub use super::search::{build_lps_list, find_string, build_bin_lps_list, find_bin, find_string_position, TextPosition};
pub use super::listing::{assembly_lines, disasm_text, try_assembly_lines, try_disasm_text, offset_addr};

verus! {

/// The indentation before an address and before an instruction.
pub const INDENT: &'static str = "   ";

/// The text of the instruction `code` with operands `ops` at `addr`: the
/// address in hexadecimal, a colon, then the mnemonic and the operands. A
/// `CPS` shows its operands alone, which name it.
pub open spec fn instruction_text(addr: u32, code: Opcode, ops: Option<Operands>) -> Seq<char> {
    "   "@ + hex_text(addr) + ":"@ + "   "@ + match ops {
        Some(args) => if code != Opcode::_16Bit(B16::CPS) {
            opcode_mnemonic(code)@ + " "@ + operand_text(args, addr)
        } else {
            operand_text(args, addr)
        },
        None => opcode_mnemonic(code)@,
    }
}

/// Whether the operands, where there are any, can be written as text.
pub open spec fn instruction_printable(addr: u32, ops: Option<Operands>) -> bool {
    ops matches Some(args) ==> operands_printable(args, addr)
}

/// Appends the text of the instruction `code` with operands `operand` at
/// `addr`.
pub fn serialise_instruction(bfr: &mut String, addr: u32, code: &Opcode, operand: &Option<Operands>)
    requires
        instruction_printable(addr, *operand),
    ensures
        final(bfr)@ == old(bfr)@ + instruction_text(addr, *code, *operand),
{
    proof {
        reveal_strlit("   ");
    }
    bfr.append(INDENT);
    u32_to_hex(bfr, addr);
    bfr.append(":");
    bfr.append(INDENT);
    match operand {
        Some(args) => {
            if *code != Opcode::_16Bit(B16::CPS) {
                serialise_opcode(bfr, code);
                bfr.append(" ");
            }
            serialise_operand(bfr, args, addr);
        },
        None => {
            serialise_opcode(bfr, code);
        },
    }
    proof {
        assert(bfr@ =~= old(bfr)@ + instruction_text(addr, *code, *operand));
    }
}

/// The text of the instruction `code` with operands `operands` at `addr`,
/// as `serialise_instruction` writes it.
pub fn print_instruction(addr: u32, code: &Opcode, operands: &Option<Operands>) -> (r: String)
    requires
        instruction_printable(addr, *operands),
    ensures
        r@ == instruction_text(addr, *code, *operands),
{
    let mut line = String::new();
    serialise_instruction(&mut line, addr, code, operands);
    proof {
        assert(line@ =~= instruction_text(addr, *code, *operands));
    }
    line
}


/// A line of a listing: what stands at `address`.
pub struct AsmLine {
    pub address: usize,
    pub token: Token,
}

/// What a line of a listing holds: an instruction, a symbol or raw data.
#[allow(non_camel_case_types)]
pub enum Token {
    instr(Instruction),
    sym(Symbol),
    data(RawData),
}

/// An instruction as text.
pub struct Instruction {
    pub representation: String,
}

/// A symbol by name.
pub struct Symbol {
    pub name: String,
}

/// Data as text.
pub struct RawData {
    pub representation: String,
}

/// Whether a symbol name marks where data (`$d`) or code (`$t`) starts.
pub fn is_segment_mapping_symbol(symbol: &str) -> (r: bool)
    ensures
        r == (symbol@ == "$d"@ || symbol@ == "$t"@),
{
    proof {
        reveal_strlit("$d");
        reveal_strlit("$t");
    }
    if symbol.unicode_len() != 2 {
        return false;
    }
    let first = symbol.get_char(0);
    let second = symbol.get_char(1);
    let r = first == '$' && (second == 'd' || second == 't');
    proof {
        if r {
            if second == 'd' {
                assert(symbol@ =~= "$d"@);
            } else {
                assert(symbol@ =~= "$t"@);
            }
        }
    }
    r
}


/// Whether a symbol name marks where data or code starts.
pub open spec fn is_mapping(name: Seq<char>) -> bool {
    name == "$d"@ || name == "$t"@
}

/// The first function symbol at `a`, from index `i` on.
pub open spec fn first_func_at(symbols: Seq<SymbolDefinition>, a: usize, i: int) -> Option<int>
    decreases symbols.len() - i,
{
    if i < 0 || i >= symbols.len() {
        None
    } else if symbols[i].position == a && symbols[i]._type == SymbolType::Func {
        Some(i)
    } else {
        first_func_at(symbols, a, i + 1)
    }
}

/// The first symbol at `a` that is no mapping symbol, from index `i` on.
pub open spec fn first_named_at(symbols: Seq<SymbolDefinition>, a: usize, i: int) -> Option<int>
    decreases symbols.len() - i,
{
    if i < 0 || i >= symbols.len() {
        None
    } else if symbols[i].position == a && !is_mapping(symbols[i].name@) {
        Some(i)
    } else {
        first_named_at(symbols, a, i + 1)
    }
}

/// The symbol that labels `address`: a function at its Thumb address, or
/// else a symbol at `address` that is no mapping symbol.
pub open spec fn peek_index(symbols: Seq<SymbolDefinition>, address: usize) -> Option<int> {
    match first_func_at(symbols, address | 1, 0) {
        Some(i) => Some(i),
        None => first_named_at(symbols, address, 0),
    }
}

fn find_func_at(symbols: &Vec<SymbolDefinition>, a: usize) -> (r: Option<usize>)
    ensures
        match r {
            Some(i) => i < symbols@.len() && first_func_at(symbols@, a, 0) == Some(i as int),
            None => first_func_at(symbols@, a, 0) is None,
        },
{
    let mut i: usize = 0;
    while i < symbols.len()
        invariant
            i <= symbols@.len(),
            first_func_at(symbols@, a, 0) == first_func_at(symbols@, a, i as int),
        decreases symbols@.len() - i,
    {
        if symbols[i].position == a && matches!(symbols[i]._type, SymbolType::Func) {
            return Some(i);
        }
        i = i + 1;
    }
    None
}

fn find_named_at(symbols: &Vec<SymbolDefinition>, a: usize, from: usize) -> (r: Option<usize>)
    requires
        from <= symbols@.len(),
    ensures
        match r {
            Some(i) => i < symbols@.len() && first_named_at(symbols@, a, from as int) == Some(i as int),
            None => first_named_at(symbols@, a, from as int) is None,
        },
{
    let mut i: usize = from;
    while i < symbols.len()
        invariant
            from <= i <= symbols@.len(),
            first_named_at(symbols@, a, from as int) == first_named_at(symbols@, a, i as int),
        decreases symbols@.len() - i,
    {
        if symbols[i].position == a && !is_segment_mapping_symbol(symbols[i].name.as_str()) {
            return Some(i);
        }
        i = i + 1;
    }
    None
}

/// The name of the symbol that labels `address`: a function at its Thumb
/// address, or else a symbol at `address` that is no mapping symbol.
pub fn peek<'a>(symbols: &'a Vec<SymbolDefinition>, address: usize) -> (r: Option<&'a String>)
    ensures
        match peek_index(symbols@, address) {
            Some(i) => r matches Some(n) && *n == symbols@[i].name,
            None => r is None,
        },
{
    let thumb = address | 1;
    match find_func_at(symbols, thumb) {
        Some(i) => {
            let r = Some(&symbols[i].name);
            proof {
                assert(peek_index(symbols@, address) == Some(i as int));
            }
            r
        },
        None => match find_named_at(symbols, address, 0) {
            Some(s) => {
                let r = Some(&symbols[s].name);
                proof {
                    assert(peek_index(symbols@, address) == Some(s as int));
                }
                r
            },
            None => None,
        },
    }
}

/// The length of the longest prefix of `symbols` whose positions are at
/// most `a`.
pub open spec fn prefix_at_most(symbols: Seq<SymbolDefinition>, a: usize, i: int) -> int
    decreases symbols.len() - i,
{
    if i < 0 || i >= symbols.len() || symbols[i].position > a {
        i
    } else {
        prefix_at_most(symbols, a, i + 1)
    }
}

/// The scan for symbols at or before `a` from `i` on ends at `i` or later.
proof fn lemma_prefix_at_most_from(symbols: Seq<SymbolDefinition>, a: usize, i: int)
    requires
        0 <= i,
    ensures
        prefix_at_most(symbols, a, i) >= i,
    decreases symbols.len() - i,
{
    if i < symbols.len() && symbols[i].position <= a {
        lemma_prefix_at_most_from(symbols, a, i + 1);
    }
}

/// Going back from index `idx` over the symbols at `a`, but not to the
/// first symbol, the first that is a function.
pub open spec fn func_going_back(symbols: Seq<SymbolDefinition>, a: usize, idx: int) -> Option<int>
    decreases idx,
{
    if idx <= 0 || idx >= symbols.len() || symbols[idx].position != a {
        None
    } else if symbols[idx]._type == SymbolType::Func {
        Some(idx)
    } else {
        func_going_back(symbols, a, idx - 1)
    }
}

/// Going on from cursor `c`, the first symbol at `address` that is no
/// mapping symbol, with where the cursor stops: on that symbol, on the
/// first symbol past `address`, or at the end.
pub open spec fn scan_from(symbols: Seq<SymbolDefinition>, address: usize, c: int) -> (Option<int>, int)
    decreases symbols.len() - c,
{
    if c < 0 || c >= symbols.len() {
        (None, c)
    } else if symbols[c].position > address {
        (None, c)
    } else if symbols[c].position == address && !is_mapping(symbols[c].name@) {
        (Some(c), c)
    } else {
        scan_from(symbols, address, c + 1)
    }
}

/// What a lookup of `address` with the cursor at `c` finds, and where it
/// leaves the cursor: with `thumb_funcs`, a function at the Thumb address
/// of an even `address`; otherwise the next symbol at `address`.
pub open spec fn lookup_result(symbols: Seq<SymbolDefinition>, c: int, address: usize, thumb_funcs: bool) -> (Option<int>, int) {
    if c >= symbols.len() {
        (None, c)
    } else {
        let from_thumb = if thumb_funcs && address % 2 == 0 {
            func_going_back(symbols, address | 1, prefix_at_most(symbols, address | 1, 0) - 1)
        } else {
            None
        };
        match from_thumb {
            Some(i) => (Some(i), c),
            None => scan_from(symbols, address, c),
        }
    }
}

/// Whether a lookup of `address` with the cursor at `c` runs: a search for
/// a function needs a symbol at or before the Thumb address.
pub open spec fn lookup_defined(symbols: Seq<SymbolDefinition>, c: int, address: usize, thumb_funcs: bool) -> bool {
    c < symbols.len() && thumb_funcs && address % 2 == 0 ==> prefix_at_most(symbols, address | 1, 0) > 0
}

/// A table of symbols that is read in order of address.
pub struct SymbolTable<'a> {
    symbols: &'a Vec<SymbolDefinition>,
    cursor: usize,
}

impl<'a> SymbolTable<'a> {
    /// The symbols of the table.
    pub closed spec fn syms(&self) -> Seq<SymbolDefinition> {
        self.symbols@
    }

    /// Where the next lookup starts.
    pub closed spec fn cursor_at(&self) -> int {
        self.cursor as int
    }

    /// A table over `symbols`, read from the start.
    pub fn create(symbols: &'a Vec<SymbolDefinition>) -> (r: Self)
        ensures
            r.syms() == symbols@,
            r.cursor_at() == 0,
    {
        Self { symbols, cursor: 0 }
    }

    /// Whether a lookup of `address` can be made: where the cursor is within
    /// the table and the address is even, a symbol must lie at or before its
    /// Thumb address.
    pub fn lookup_ok(&self, address: usize) -> (r: bool)
        ensures
            r == lookup_defined(self.syms(), self.cursor_at(), address, true),
    {
        proof {
            if self.symbols@.len() > 0 && self.symbols@[0].position <= address | 1 {
                lemma_prefix_at_most_from(self.symbols@, address | 1, 1);
            }
        }
        if self.cursor < self.symbols.len() && address % 2 == 0 {
            self.symbols[0].position <= address | 1
        } else {
            true
        }
    }

    /// The name of the symbol at `address`: a function at its Thumb
    /// address, or the next symbol at `address` that is no mapping symbol.
    pub fn lookup(&mut self, address: usize) -> (r: Option<&'a String>)
        requires
            lookup_defined(old(self).syms(), old(self).cursor_at(), address, true),
        ensures
            final(self).syms() == old(self).syms(),
            final(self).cursor_at() == lookup_result(old(self).syms(), old(self).cursor_at(), address, true).1,
            match lookup_result(old(self).syms(), old(self).cursor_at(), address, true).0 {
                Some(i) => r matches Some(n) && *n == old(self).syms()[i].name,
                None => r is None,
            },
    {
        self.progressive_lookup(address, true)
    }

    /// The name of the next symbol at `address` that is no mapping symbol.
    pub fn lookup_ignore_functions(&mut self, address: usize) -> (r: Option<&'a String>)
        ensures
            final(self).syms() == old(self).syms(),
            final(self).cursor_at() == lookup_result(old(self).syms(), old(self).cursor_at(), address, false).1,
            match lookup_result(old(self).syms(), old(self).cursor_at(), address, false).0 {
                Some(i) => r matches Some(n) && *n == old(self).syms()[i].name,
                None => r is None,
            },
    {
        self.progressive_lookup(address, false)
    }

    fn progressive_lookup(&mut self, address: usize, search_for_thumb_funcs: bool) -> (r: Option<&'a String>)
        requires
            lookup_defined(old(self).syms(), old(self).cursor_at(), address, search_for_thumb_funcs),
        ensures
            final(self).syms() == old(self).syms(),
            final(self).cursor_at() == lookup_result(old(self).syms(), old(self).cursor_at(), address, search_for_thumb_funcs).1,
            match lookup_result(old(self).syms(), old(self).cursor_at(), address, search_for_thumb_funcs).0 {
                Some(i) => r matches Some(n) && *n == old(self).syms()[i].name,
                None => r is None,
            },
    {
        let symbols: &'a Vec<SymbolDefinition> = self.symbols;
        let ghost s = symbols@;
        if self.cursor >= symbols.len() {
            return None;
        }
        if search_for_thumb_funcs && address % 2 == 0 {
            let thumb_address = address | 1;
            let mut pp: usize = 0;
            while pp < symbols.len() && symbols[pp].position <= thumb_address
                invariant
                    pp <= s.len(),
                    s == symbols@,
                    *self == *old(self),
                    old(self).cursor < s.len(),
                    search_for_thumb_funcs && address % 2 == 0,
                    thumb_address == address | 1,
                    s == old(self).syms(),
                    prefix_at_most(s, thumb_address, 0) == prefix_at_most(s, thumb_address, pp as int),
                decreases s.len() - pp,
            {
                pp = pp + 1;
            }
            let mut idx = pp - 1;
            while symbols[idx].position == thumb_address && idx != 0
                invariant
                    idx < s.len(),
                    s == symbols@,
                    *self == *old(self),
                    old(self).cursor < s.len(),
                    search_for_thumb_funcs && address % 2 == 0,
                    thumb_address == address | 1,
                    s == old(self).syms(),
                    func_going_back(s, thumb_address, prefix_at_most(s, thumb_address, 0) - 1) == func_going_back(s, thumb_address, idx as int),
                decreases idx,
            {
                if matches!(symbols[idx]._type, SymbolType::Func) {
                    proof {
                        assert(func_going_back(s, thumb_address, idx as int) == Some(idx as int));
                        assert(old(self).cursor_at() < s.len());
                        assert(search_for_thumb_funcs && address % 2 == 0);
                        assert(thumb_address == address | 1);
                        assert(func_going_back(s, address | 1, prefix_at_most(s, address | 1, 0) - 1) == Some(idx as int));
                        assert(lookup_result(s, old(self).cursor_at(), address, search_for_thumb_funcs).0 == Some(idx as int));
                    }
                    return Some(&symbols[idx].name);
                }
                idx = idx - 1;
            }
        }
        while self.cursor < symbols.len()
            invariant
                s == symbols@,
                self.symbols == symbols,
                s == old(self).syms(),
                self.cursor >= old(self).cursor,
                old(self).cursor < s.len(),
                search_for_thumb_funcs && address % 2 == 0 ==> func_going_back(s, address | 1, prefix_at_most(s, address | 1, 0) - 1) is None,
                scan_from(s, address, old(self).cursor_at()) == scan_from(s, address, self.cursor as int),
            decreases s.len() - self.cursor,
        {
            let sym_addr = symbols[self.cursor].position;
            if sym_addr > address {
                return None;
            }
            if sym_addr == address {
                if !is_segment_mapping_symbol(symbols[self.cursor].name.as_str()) {
                    return Some(&symbols[self.cursor].name);
                }
            }
            self.cursor = self.cursor + 1;
        }
        None
    }
}

} // verus!
