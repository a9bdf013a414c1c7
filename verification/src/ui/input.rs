//! What the user types: hexadecimal addresses, and breakpoints given by
//! address or by symbol name.
use vstd::prelude::*;
use vstd::string::StrSliceExecFns;
use crate::elf::decoder::SymbolDefinition;
use crate::thumb::interpreter::{is_mapping, is_segment_mapping_symbol};

verus! {

/// Whether `c` is white space in the sense of Unicode's `White_Space`
/// property.
pub open spec fn is_white(c: char) -> bool {
    let v = c as u32;
    ||| 0x09 <= v <= 0x0D
    ||| v == 0x20
    ||| v == 0x85
    ||| v == 0xA0
    ||| v == 0x1680
    ||| 0x2000 <= v <= 0x200A
    ||| v == 0x2028
    ||| v == 0x2029
    ||| v == 0x202F
    ||| v == 0x205F
    ||| v == 0x3000
}

/// Whether `c` is white space.
pub fn white(c: char) -> (r: bool)
    ensures
        r == is_white(c),
{
    let v = c as u32;
    (0x09 <= v && v <= 0x0D) || v == 0x20 || v == 0x85 || v == 0xA0 || v == 0x1680 || (0x2000 <= v
        && v <= 0x200A) || v == 0x2028 || v == 0x2029 || v == 0x202F || v == 0x205F || v == 0x3000
}

/// The index of the first character of `s` from `i` on that is no white
/// space, or the length of `s`.
pub open spec fn first_solid(s: Seq<char>, i: int) -> int
    decreases s.len() - i,
{
    if i < 0 || i >= s.len() {
        s.len() as int
    } else if !is_white(s[i]) {
        i
    } else {
        first_solid(s, i + 1)
    }
}

/// The end of `s` up to `j` without the white space before it.
pub open spec fn solid_end(s: Seq<char>, j: int) -> int
    decreases j,
{
    if j <= 0 || j > s.len() {
        0
    } else if !is_white(s[j - 1]) {
        j
    } else {
        solid_end(s, j - 1)
    }
}

/// `s` without white space at its start and at its end.
pub open spec fn trim_white(s: Seq<char>) -> Seq<char> {
    let a = first_solid(s, 0);
    if a >= s.len() {
        Seq::empty()
    } else {
        s.subrange(a, solid_end(s, s.len() as int))
    }
}

proof fn lemma_first_solid(s: Seq<char>, i: int)
    requires
        0 <= i <= s.len(),
    ensures
        i <= first_solid(s, i) <= s.len(),
        first_solid(s, i) < s.len() ==> !is_white(s[first_solid(s, i)]),
    decreases s.len() - i,
{
    if i < s.len() && is_white(s[i]) {
        lemma_first_solid(s, i + 1);
    }
}

proof fn lemma_solid_end(s: Seq<char>, j: int, a: int)
    requires
        0 <= a < j <= s.len(),
        !is_white(s[a]),
    ensures
        a < solid_end(s, j) <= j,
    decreases j,
{
    if is_white(s[j - 1]) {
        lemma_solid_end(s, j - 1, a);
    }
}

/// `s` without white space at its start and at its end, as `str::trim`
/// gives it.
pub fn trim_text(s: &str) -> (r: String)
    ensures
        r@ == trim_white(s@),
{
    let n = s.unicode_len();
    let mut a: usize = 0;
    while a < n && white(s.get_char(a))
        invariant
            n == s@.len(),
            a <= n,
            first_solid(s@, a as int) == first_solid(s@, 0),
        decreases n - a,
    {
        a = a + 1;
    }
    proof {
        lemma_first_solid(s@, 0);
    }
    if a >= n {
        return String::new();
    }
    let mut b: usize = n;
    while b > a && white(s.get_char(b - 1))
        invariant
            n == s@.len(),
            a < n,
            a < b <= n,
            a == first_solid(s@, 0),
            !is_white(s@[a as int]),
            solid_end(s@, b as int) == solid_end(s@, n as int),
        decreases b,
    {
        b = b - 1;
    }
    proof {
        lemma_solid_end(s@, n as int, a as int);
        assert(solid_end(s@, b as int) == b);
        assert(trim_white(s@) == s@.subrange(a as int, b as int));
    }
    s.substring_char(a, b).to_owned()
}

/// The value of the hexadecimal digit `c`, in either case.
pub open spec fn hex_digit_value(c: char) -> Option<nat> {
    let v = c as u32;
    if 0x30 <= v <= 0x39 {
        Some((v - 0x30) as nat)
    } else if 0x61 <= v <= 0x66 {
        Some((v - 0x61 + 10) as nat)
    } else if 0x41 <= v <= 0x46 {
        Some((v - 0x41 + 10) as nat)
    } else {
        None
    }
}

/// The value of the hexadecimal digits `s`; `None` where one is no digit.
pub open spec fn hex_value(s: Seq<char>) -> Option<nat>
    decreases s.len(),
{
    if s.len() == 0 {
        Some(0)
    } else {
        match (hex_value(s.drop_last()), hex_digit_value(s.last())) {
            (Some(v), Some(d)) => Some(v * 16 + d),
            _ => None,
        }
    }
}

/// What `u32::from_str_radix(s, 16)` gives: an optional `+`, then at least
/// one hexadecimal digit, of a value that fits 32 bits.
pub open spec fn radix16_u32(s: Seq<char>) -> Option<u32> {
    let digits = if s.len() > 0 && s[0] == '+' {
        s.drop_first()
    } else {
        s
    };
    if digits.len() == 0 {
        None
    } else {
        match hex_value(digits) {
            Some(v) => if v <= u32::MAX {
                Some(v as u32)
            } else {
                None
            },
            None => None,
        }
    }
}

proof fn lemma_hex_prefix(s: Seq<char>, k: int)
    requires
        0 <= k <= s.len(),
        hex_value(s) is Some,
    ensures
        hex_value(s.subrange(0, k)) is Some,
        hex_value(s.subrange(0, k))->0 <= hex_value(s)->0,
    decreases s.len(),
{
    if k < s.len() {
        assert(s.drop_last() =~= s.subrange(0, s.len() - 1));
        lemma_hex_prefix(s.drop_last(), k);
        assert(s.drop_last().subrange(0, k) =~= s.subrange(0, k));
    } else {
        assert(s.subrange(0, k) =~= s);
    }
}

/// The digit value of `c`.
fn digit_value(c: char) -> (r: Option<u32>)
    ensures
        match hex_digit_value(c) {
            Some(d) => r == Some(d as u32),
            None => r is None,
        },
{
    let v = c as u32;
    if 0x30 <= v && v <= 0x39 {
        Some(v - 0x30)
    } else if 0x61 <= v && v <= 0x66 {
        Some(v - 0x61 + 10)
    } else if 0x41 <= v && v <= 0x46 {
        Some(v - 0x41 + 10)
    } else {
        None
    }
}

/// `s` read as an unsigned hexadecimal number of 32 bits, as
/// `u32::from_str_radix(s, 16)` reads it.
pub fn hex_u32(s: &str) -> (r: Option<u32>)
    ensures
        r == radix16_u32(s@),
{
    let n = s.unicode_len();
    let mut i: usize = 0;
    if n > 0 && s.get_char(0) == '+' {
        i = 1;
    }
    let ghost digits = if s@.len() > 0 && s@[0] == '+' {
        s@.drop_first()
    } else {
        s@
    };
    let ghost first = i as int;
    proof {
        assert(digits =~= s@.subrange(first, n as int));
    }
    if i >= n {
        return None;
    }
    let mut acc: u64 = 0;
    while i < n
        invariant
            n == s@.len(),
            0 <= first <= i <= n,
            first < n,
            digits == s@.subrange(first, n as int),
            digits == (if s@.len() > 0 && s@[0] == '+' {
                s@.drop_first()
            } else {
                s@
            }),
            hex_value(s@.subrange(first, i as int)) == Some(acc as nat),
            acc <= u32::MAX,
        decreases n - i,
    {
        let c = s.get_char(i);
        let ghost p = s@.subrange(first, i as int);
        let ghost q = s@.subrange(first, i + 1);
        proof {
            assert(q.drop_last() =~= p);
            assert(q.last() == c);
        }
        match digit_value(c) {
            Some(d) => {
                let next = acc * 16 + d as u64;
                proof {
                    assert(hex_value(q) == Some(next as nat));
                }
                if next > 0xFFFF_FFFF {
                    proof {
                        if hex_value(digits) is Some {
                            lemma_hex_prefix(digits, i + 1 - first);
                            assert(digits.subrange(0, i + 1 - first) =~= q);
                        }
                    }
                    return None;
                }
                acc = next;
            },
            None => {
                proof {
                    assert(hex_value(q) is None);
                    if hex_value(digits) is Some {
                        lemma_hex_prefix(digits, i + 1 - first);
                        assert(digits.subrange(0, i + 1 - first) =~= q);
                    }
                }
                return None;
            },
        }
        i = i + 1;
    }
    proof {
        assert(s@.subrange(first, n as int) =~= digits);
    }
    Some(acc as u32)
}

/// The address that a user wrote in hexadecimal, with or without `0x`:
/// after a `0x` white space at the end is dropped.
pub open spec fn hex_input_value(h: Seq<char>) -> Option<u32> {
    if h.len() >= 2 && h[0] == '0' && h[1] == 'x' {
        radix16_u32(trim_white(h).subrange(2, trim_white(h).len() as int))
    } else {
        radix16_u32(h)
    }
}

/// The value of the hexadecimal number `hex`, with or without `0x`; `None`
/// where it is no such number.
pub fn parse_hex(hex: &str) -> (r: Option<u32>)
    ensures
        r == hex_input_value(hex@),
{
    let n = hex.unicode_len();
    if n >= 2 && hex.get_char(0) == '0' && hex.get_char(1) == 'x' {
        let t = trim_text(hex);
        proof {
            lemma_first_solid(hex@, 0);
            assert(first_solid(hex@, 0) == 0);
            lemma_solid_end(hex@, n as int, 1);
            assert(!is_white('x'));
        }
        let m = t.as_str().unicode_len();
        let h = t.as_str().substring_char(2, m);
        hex_u32(h)
    } else {
        hex_u32(hex)
    }
}

/// The first symbol from `i` on named `name` that is no mapping symbol.
pub open spec fn first_symbol_named(symbols: Seq<SymbolDefinition>, name: Seq<char>, i: int) -> Option<int>
    decreases symbols.len() - i,
{
    if i < 0 || i >= symbols.len() {
        None
    } else if symbols[i].name@ == name && !is_mapping(symbols[i].name@) {
        Some(i)
    } else {
        first_symbol_named(symbols, name, i + 1)
    }
}

/// The address or symbol name a user typed to set a breakpoint.
pub struct BkptInput {
    pub pending_addr_or_symbol: String,
}

/// Where the breakpoint that `text` asks for goes: the address it gives in
/// hexadecimal, or else the address of the first symbol of that name.
pub open spec fn breakpoint_target(text: Seq<char>, symbols: Seq<SymbolDefinition>) -> Option<u32> {
    match hex_input_value(text) {
        Some(a) => Some(a),
        None => match first_symbol_named(symbols, trim_white(text), 0) {
            Some(i) => Some(symbols[i].position as u32),
            None => None,
        },
    }
}

impl BkptInput {
    /// The address the input names, as a hexadecimal number or as the name
    /// of a symbol of `symbols`.
    pub fn try_get_addr(&self, symbols: &Vec<SymbolDefinition>) -> (r: Option<u32>)
        ensures
            r == breakpoint_target(self.pending_addr_or_symbol@, symbols@),
    {
        match parse_hex(self.pending_addr_or_symbol.as_str()) {
            Some(addr) => Some(addr),
            None => {
                let treated = trim_text(self.pending_addr_or_symbol.as_str());
                let mut k: usize = 0;
                while k < symbols.len()
                    invariant
                        k <= symbols@.len(),
                        treated@ == trim_white(self.pending_addr_or_symbol@),
                        first_symbol_named(symbols@, treated@, k as int) == first_symbol_named(symbols@, treated@, 0),
                        hex_input_value(self.pending_addr_or_symbol@) is None,
                    decreases symbols@.len() - k,
                {
                    let symbol = &symbols[k];
                    if symbol.name == treated && !is_segment_mapping_symbol(symbol.name.as_str()) {
                        proof {
                            assert(first_symbol_named(symbols@, treated@, k as int) == Some(k as int));
                        }
                        return Some(symbol.position as u32);
                    }
                    k = k + 1;
                }
                None
            },
        }
    }
}

} // verus!
