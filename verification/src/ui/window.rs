//! The lines of a long text that a window shows, and the panes of a window
//! with what each one shows.
use std::collections::HashMap;
use vstd::prelude::*;
use vstd::string::StrSliceExecFns;
use crate::thumb::search::chars_of;
use super::MemoryView;
use super::input::{trim_white, trim_text, radix16_u32, hex_u32};

verus! {

/// The first line feed in `s` at or after `i`, or the length of `s` where
/// there is none.
pub open spec fn next_newline(s: Seq<char>, i: int) -> int
    decreases s.len() - i,
{
    if i >= s.len() {
        s.len() as int
    } else if s[i] == '\n' {
        i
    } else {
        next_newline(s, i + 1)
    }
}

/// Where line `k` of `s` starts: after the `k`th line feed, or at the end
/// of `s` when there are fewer lines.
pub open spec fn line_start(s: Seq<char>, k: nat) -> int
    decreases k,
{
    if k == 0 {
        0
    } else {
        let e = next_newline(s, line_start(s, (k - 1) as nat));
        if e < s.len() {
            e + 1
        } else {
            s.len() as int
        }
    }
}

/// Where the text shown from line `k` on ends, for `remaining` more lines
/// after it, when the text before ends at `p`: a line with text ends at its
/// line feed; a blank line moves the end one character on.
pub open spec fn shown_end(s: Seq<char>, k: nat, remaining: nat, p: int) -> int
    decreases remaining,
{
    if line_start(s, k) >= s.len() {
        p
    } else {
        let e = next_newline(s, line_start(s, k));
        let p2 = if e == line_start(s, k) {
            p + 1
        } else {
            e
        };
        if remaining == 0 {
            p2
        } else {
            shown_end(s, k + 1, (remaining - 1) as nat, p2)
        }
    }
}

pub proof fn lemma_next_newline(s: Seq<char>, i: int)
    requires
        0 <= i,
    ensures
        i <= next_newline(s, i) <= s.len() || (i > s.len() && next_newline(s, i) == s.len()),
        next_newline(s, i) < s.len() ==> s[next_newline(s, i)] == '\n',
        forall|j: int| i <= j < next_newline(s, i) ==> s[j] != '\n',
    decreases s.len() - i,
{
    if i < s.len() && s[i] != '\n' {
        lemma_next_newline(s, i + 1);
    }
}

pub(crate) proof fn lemma_line_start(s: Seq<char>, k: nat)
    ensures
        0 <= line_start(s, k) <= s.len(),
        forall|j: nat| j <= k ==> line_start(s, j) <= line_start(s, k),
    decreases k,
{
    if k > 0 {
        lemma_line_start(s, (k - 1) as nat);
        lemma_next_newline(s, line_start(s, (k - 1) as nat));
    }
}

/// The lines `first_line` to `last_line_included` of `large_buffer`, as the
/// text between the start of the first and the end of the last; lines past
/// the end of the text are left out.
pub fn line_buffer(large_buffer: &String, first_line: usize, last_line_included: usize) -> (r: &str)
    requires
        first_line <= last_line_included,
        first_line > 0 ==> line_start(large_buffer@, (first_line - 1) as nat) < large_buffer@.len(),
    ensures
        r@ == large_buffer@.subrange(
            line_start(large_buffer@, first_line as nat),
            shown_end(
                large_buffer@,
                first_line as nat,
                (last_line_included - first_line) as nat,
                line_start(large_buffer@, first_line as nat),
            ),
        ),
{
    let ghost s = large_buffer@;
    let text = chars_of(large_buffer.as_str());
    let len = text.len();
    let viewport_lines = last_line_included - first_line;
    let mut ch_ptr: usize = 0;
    let mut k: usize = 0;
    while k < first_line
        invariant
            text@ == s,
            len == s.len(),
            k <= first_line,
            first_line > 0 ==> line_start(s, (first_line - 1) as nat) < len,
            ch_ptr == line_start(s, k as nat),
        decreases first_line - k,
    {
        proof {
            lemma_line_start(s, (first_line - 1) as nat);
            lemma_next_newline(s, ch_ptr as int);
        }
        let mut j = ch_ptr;
        while j < len && text[j] != '\n'
            invariant
                text@ == s,
                len == s.len(),
                ch_ptr <= j <= len,
                next_newline(s, ch_ptr as int) == next_newline(s, j as int),
            decreases len - j,
        {
            j = j + 1;
        }
        ch_ptr = if j < len {
            j + 1
        } else {
            len
        };
        k = k + 1;
    }
    proof {
        lemma_line_start(s, k as nat);
    }
    let ghost start = ch_ptr as int;
    let mut end_ptr = ch_ptr;
    let mut line = ch_ptr;
    let mut t: usize = 0;
    loop
        invariant_except_break
            line == line_start(s, (first_line + t) as nat),
            end_ptr <= line,
            shown_end(s, first_line as nat, viewport_lines as nat, start) == shown_end(
                s,
                (first_line + t) as nat,
                (viewport_lines - t) as nat,
                end_ptr as int,
            ),
        invariant
            text@ == s,
            len == s.len(),
            t <= viewport_lines,
            start <= end_ptr <= len,
            start == line_start(s, first_line as nat),
        ensures
            end_ptr == shown_end(s, first_line as nat, viewport_lines as nat, start),
            start <= end_ptr <= len,
        decreases viewport_lines - t,
    {
        proof {
            lemma_line_start(s, (first_line + t) as nat);
            lemma_next_newline(s, line as int);
        }
        if line >= len {
            break;
        }
        let mut j = line;
        while j < len && text[j] != '\n'
            invariant
                text@ == s,
                len == s.len(),
                line <= j <= len,
                next_newline(s, line as int) == next_newline(s, j as int),
            decreases len - j,
        {
            j = j + 1;
        }
        if j == line {
            end_ptr = end_ptr + 1;
        } else {
            end_ptr = j;
        }
        if t == viewport_lines {
            break;
        }
        line = if j < len {
            j + 1
        } else {
            len
        };
        t = t + 1;
    }
    large_buffer.as_str().substring_char(ch_ptr, end_ptr)
}

/// The index of the first colon of `s` from `i` on, or its length.
pub open spec fn first_colon(s: Seq<char>, i: int) -> int
    decreases s.len() - i,
{
    if i < 0 || i >= s.len() {
        s.len() as int
    } else if s[i] == ':' {
        i
    } else {
        first_colon(s, i + 1)
    }
}

/// `s` without any number of leading `0x`.
pub open spec fn strip_hex_prefixes(s: Seq<char>) -> Seq<char>
    decreases s.len(),
{
    if s.len() >= 2 && s[0] == '0' && s[1] == 'x' {
        strip_hex_prefixes(s.subrange(2, s.len() as int))
    } else {
        s
    }
}

/// The address a line of a listing starts with: the text before its first
/// colon, without white space at its ends and without leading `0x`s, read
/// as a hexadecimal number.
pub open spec fn line_address(line: Seq<char>) -> Option<u32> {
    radix16_u32(trim_white(strip_hex_prefixes(trim_white(line.subrange(0, first_colon(line, 0))))))
}

/// The scan of the lines of `s` from the line that starts at `p`, line
/// number `ln`, for the last line whose address is `ir`, `found` so far:
/// that line's number and the number of lines; lines of white space alone
/// have no address. `None` where a line with text has no address.
pub open spec fn pc_scan(s: Seq<char>, p: int, ln: nat, ir: u32, found: nat) -> Option<(nat, nat)>
    decreases s.len() - p,
{
    if p < 0 || p >= s.len() {
        Some((found, ln))
    } else {
        proof {
            lemma_next_newline(s, p);
        }
        let e = next_newline(s, p);
        let next = if e < s.len() {
            e + 1
        } else {
            s.len() as int
        };
        let line = s.subrange(p, e);
        if trim_white(line).len() == 0 {
            pc_scan(s, next, ln + 1, ir, found)
        } else {
            match line_address(line) {
                Some(v) => pc_scan(s, next, ln + 1, ir, if v == ir {
                    ln
                } else {
                    found
                }),
                None => None,
            }
        }
    }
}

/// `line` without any number of leading `0x`.
fn without_hex_prefixes(line: &str) -> (r: &str)
    ensures
        r@ == strip_hex_prefixes(line@),
    decreases line@.len(),
{
    let n = line.unicode_len();
    if n >= 2 && line.get_char(0) == '0' && line.get_char(1) == 'x' {
        without_hex_prefixes(line.substring_char(2, n))
    } else {
        line
    }
}

/// The number of the last line of the listing `disasm` whose address is
/// `ir` (0 where there is none), and the number of lines.
pub fn get_pc_text_position(disasm: &String, ir: u32) -> (r: (usize, usize))
    requires
        pc_scan(disasm@, 0, 0, ir, 0) is Some,
    ensures
        pc_scan(disasm@, 0, 0, ir, 0) == Some((r.0 as nat, r.1 as nat)),
{
    let ghost s = disasm@;
    let text = chars_of(disasm.as_str());
    let len = text.len();
    let mut p: usize = 0;
    let mut ln: usize = 0;
    let mut found: usize = 0;
    while p < len
        invariant
            text@ == s,
            s == disasm@,
            len == s.len(),
            p <= len,
            ln <= p,
            pc_scan(s, 0, 0, ir, 0) is Some,
            pc_scan(s, 0, 0, ir, 0) == pc_scan(s, p as int, ln as nat, ir, found as nat),
        decreases len - p,
    {
        proof {
            lemma_next_newline(s, p as int);
        }
        let mut e = p;
        while e < len && text[e] != '\n'
            invariant
                text@ == s,
                len == s.len(),
                p <= e <= len,
                next_newline(s, p as int) == next_newline(s, e as int),
            decreases len - e,
        {
            e = e + 1;
        }
        let line = disasm.as_str().substring_char(p, e);
        let t = trim_text(line);
        if t.as_str().unicode_len() != 0 {
            let mut c = p;
            while c < e && text[c] != ':'
                invariant
                    text@ == s,
                    len == s.len(),
                    p <= c <= e <= len,
                    line@ == s.subrange(p as int, e as int),
                    first_colon(line@, (c - p) as int) == first_colon(line@, 0),
                decreases e - c,
            {
                c = c + 1;
            }
            let head = disasm.as_str().substring_char(p, c);
            proof {
                assert(head@ =~= line@.subrange(0, first_colon(line@, 0)));
            }
            let h1 = trim_text(head);
            let h2 = without_hex_prefixes(h1.as_str());
            let h3 = trim_text(h2);
            match hex_u32(h3.as_str()) {
                Some(v) => {
                    if v == ir {
                        found = ln;
                    }
                },
                None => {
                    proof {
                        assert(false);
                    }
                },
            }
        }
        ln = ln + 1;
        p = if e < len {
            e + 1
        } else {
            len
        };
    }
    (found, ln)
}

/// The panes of a window, keyed by the number of each pane; each has the
/// id of its scrollable area, and an area may have a recorded line offset.
pub struct Window {
    focus: Option<usize>,
    items: HashMap<usize, u64>,
    scroll_offset: HashMap<u64, usize>,
}

impl Window {
    /// The pane that has the focus, where one has.
    pub closed spec fn focused(&self) -> Option<usize> {
        self.focus
    }

    /// The panes of the window, each with the id of its scrollable area.
    pub closed spec fn panes(&self) -> Map<usize, u64> {
        self.items@
    }

    /// The recorded line offset of each scrollable area.
    pub closed spec fn offsets(&self) -> Map<u64, usize> {
        self.scroll_offset@
    }

    /// A window without panes.
    pub fn create() -> (r: Self)
        ensures
            r.focused() is None,
            r.panes() == Map::<usize, u64>::empty(),
            r.offsets() == Map::<u64, usize>::empty(),
    {
        Self { focus: None, items: HashMap::new(), scroll_offset: HashMap::new() }
    }

    /// Adds the pane `p`, whose scrollable area gets the new id `id`, and
    /// gives it the focus; returns the id.
    pub fn add_pane(&mut self, p: usize, id: u64) -> (r: u64)
        ensures
            r == id,
            final(self).panes() == old(self).panes().insert(p, id),
            final(self).focused() == Some(p),
            final(self).offsets() == old(self).offsets(),
    {
        broadcast use vstd::std_specs::hash::group_hash_axioms;
        let _ = self.items.insert(p, id);
        self.focus = Some(p);
        id
    }

    /// The id of the scrollable area of the pane `p`.
    pub fn id_of(&self, p: usize) -> (r: Option<u64>)
        ensures
            r == (if self.panes().contains_key(p) {
                Some(self.panes()[p])
            } else {
                None
            }),
    {
        broadcast use vstd::std_specs::hash::group_hash_axioms;
        match self.items.get(&p) {
            Some(id) => Some(*id),
            None => None,
        }
    }

    /// Removes the pane `p`, and the line offset of its scrollable area.
    pub fn remove_pane(&mut self, p: usize)
        ensures
            final(self).panes() == old(self).panes().remove(p),
            final(self).offsets() == (if old(self).panes().contains_key(p) {
                old(self).offsets().remove(old(self).panes()[p])
            } else {
                old(self).offsets()
            }),
            final(self).focused() == old(self).focused(),
    {
        broadcast use vstd::std_specs::hash::group_hash_axioms;
        if self.items.contains_key(&p) {
            let id: u64 = match self.items.get(&p) {
                Some(id) => *id,
                None => 0,
            };
            self.scroll_offset.remove(&id);
        }
        self.items.remove(&p);
    }

    /// Gives the focus to the pane `p`, where the window has it.
    pub fn focus_if_present(&mut self, p: usize)
        ensures
            final(self).focused() == (if old(self).panes().contains_key(p) {
                Some(p)
            } else {
                old(self).focused()
            }),
            final(self).panes() == old(self).panes(),
            final(self).offsets() == old(self).offsets(),
    {
        broadcast use vstd::std_specs::hash::group_hash_axioms;
        if self.items.contains_key(&p) {
            self.focus = Some(p);
        }
    }

    /// The id of the scrollable area of the pane that has the focus.
    pub fn get_focused_pane(&self) -> (r: Option<u64>)
        ensures
            r == (match self.focused() {
                Some(p) => if self.panes().contains_key(p) {
                    Some(self.panes()[p])
                } else {
                    None
                },
                None => None,
            }),
    {
        match self.focus {
            Some(pane) => self.id_of(pane),
            None => None,
        }
    }

    /// Records that the scrollable area `id` shows line `line_number` first.
    pub fn record_line_offset(&mut self, id: u64, line_number: usize)
        ensures
            final(self).offsets() == old(self).offsets().insert(id, line_number),
            final(self).panes() == old(self).panes(),
            final(self).focused() == old(self).focused(),
    {
        broadcast use vstd::std_specs::hash::group_hash_axioms;
        let _ = self.scroll_offset.insert(id, line_number);
    }

    /// The recorded line offset of the scrollable area `id`.
    pub fn scroll_position(&self, id: u64) -> (r: Option<usize>)
        ensures
            r == (if self.offsets().contains_key(id) {
                Some(self.offsets()[id])
            } else {
                None
            }),
    {
        broadcast use vstd::std_specs::hash::group_hash_axioms;
        match self.scroll_offset.get(&id) {
            Some(ln) => Some(*ln),
            None => None,
        }
    }
}

/// What each memory explorer pane shows, keyed by the id of its scrollable
/// area: the view, and the start and end addresses being typed.
pub struct ExplorerMap {
    mem_view: HashMap<u64, MemoryView>,
    pending_start: HashMap<u64, String>,
    pending_end: HashMap<u64, String>,
}

impl ExplorerMap {
    /// The view of each pane.
    pub closed spec fn views(&self) -> Map<u64, MemoryView> {
        self.mem_view@
    }

    /// The start address being typed in each pane.
    pub closed spec fn starts(&self) -> Map<u64, String> {
        self.pending_start@
    }

    /// The end address being typed in each pane.
    pub closed spec fn ends(&self) -> Map<u64, String> {
        self.pending_end@
    }

    /// A map without panes.
    pub fn create() -> (r: Self)
        ensures
            r.views() == Map::<u64, MemoryView>::empty(),
            r.starts() == Map::<u64, String>::empty(),
            r.ends() == Map::<u64, String>::empty(),
    {
        Self { mem_view: HashMap::new(), pending_start: HashMap::new(), pending_end: HashMap::new() }
    }

    /// The view of the pane `id`.
    pub fn view_of(&self, id: u64) -> (r: Option<&MemoryView>)
        ensures
            match r {
                Some(v) => self.views().contains_key(id) && *v == self.views()[id],
                None => !self.views().contains_key(id),
            },
    {
        broadcast use vstd::std_specs::hash::group_hash_axioms;
        self.mem_view.get(&id)
    }

    /// Sets the view of the pane `id`.
    pub fn set_view(&mut self, id: u64, val: MemoryView)
        ensures
            final(self).views() == old(self).views().insert(id, val),
            final(self).starts() == old(self).starts(),
            final(self).ends() == old(self).ends(),
    {
        broadcast use vstd::std_specs::hash::group_hash_axioms;
        self.mem_view.insert(id, val);
    }

    /// The start address being typed in the pane `id`.
    pub fn get_start(&self, id: u64) -> (r: Option<String>)
        ensures
            match r {
                Some(s) => self.starts().contains_key(id) && s@ == self.starts()[id]@,
                None => !self.starts().contains_key(id),
            },
    {
        broadcast use vstd::std_specs::hash::group_hash_axioms;
        if let Some(s) = self.pending_start.get(&id) {
            Some(s.clone())
        } else {
            None
        }
    }

    /// Sets the start address being typed in the pane `id`.
    pub fn start_string(&mut self, id: u64, val: String)
        ensures
            final(self).starts() == old(self).starts().insert(id, val),
            final(self).views() == old(self).views(),
            final(self).ends() == old(self).ends(),
    {
        broadcast use vstd::std_specs::hash::group_hash_axioms;
        self.pending_start.insert(id, val);
    }

    /// Sets the end address being typed in the pane `id`.
    pub fn end_string(&mut self, id: u64, val: String)
        ensures
            final(self).ends() == old(self).ends().insert(id, val),
            final(self).views() == old(self).views(),
            final(self).starts() == old(self).starts(),
    {
        broadcast use vstd::std_specs::hash::group_hash_axioms;
        self.pending_end.insert(id, val);
    }

    /// The end address being typed in the pane `id`.
    pub fn get_end(&self, id: u64) -> (r: Option<String>)
        ensures
            match r {
                Some(s) => self.ends().contains_key(id) && s@ == self.ends()[id]@,
                None => !self.ends().contains_key(id),
            },
    {
        broadcast use vstd::std_specs::hash::group_hash_axioms;
        match self.pending_end.get(&id) {
            Some(s) => Some(s.clone()),
            None => None,
        }
    }

    /// Forgets the pane `id`.
    pub fn remove(&mut self, id: u64)
        ensures
            final(self).views() == old(self).views().remove(id),
            final(self).starts() == old(self).starts().remove(id),
            final(self).ends() == old(self).ends().remove(id),
    {
        broadcast use vstd::std_specs::hash::group_hash_axioms;
        self.mem_view.remove(&id);
        self.pending_start.remove(&id);
        self.pending_end.remove(&id);
    }
}

} // verus!
