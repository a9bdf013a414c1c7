//! The decisions behind the panes of the user interface: register labels,
//! breakpoints set by clicking, the memory explorer's address fields and
//! the keyboard shortcuts.
use vstd::prelude::*;
use vstd::string::StringExecFns;
use crate::system::simulator::DebugRequest;
use crate::thumb::decode_operands::{dec_text, u32_to_b10};
use crate::thumb::listing::{hex_padded, push_hex};
use super::{Cast, MemoryView};
use super::input::{hex_input_value, parse_hex};
use super::window::ExplorerMap;

verus! {

/// The label of a register in the register pane: its name, then its value
/// in hexadecimal or in decimal.
pub open spec fn register_label_text(name: Seq<char>, value: u32, in_hex: bool) -> Seq<char> {
    "  "@ + name + ": "@ + if in_hex {
        hex_padded(value as nat, 1)
    } else {
        dec_text(value as nat)
    }
}

/// The label of the register `name` holding `value`, in hexadecimal where
/// `in_hex` is set.
pub fn register_label(name: &str, value: u32, in_hex: bool) -> (r: String)
    ensures
        r@ == register_label_text(name@, value, in_hex),
{
    let mut label = String::new();
    label.append("  ");
    label.append(name);
    label.append(": ");
    if in_hex {
        push_hex(&mut label, value as u64, 1);
    } else {
        u32_to_b10(&mut label, value);
    }
    proof {
        reveal_strlit("  ");
        reveal_strlit(": ");
        assert(label@ =~= register_label_text(name@, value, in_hex));
    }
    label
}

/// Keeps the breakpoints other than `addr`.
pub open spec fn other_breakpoint(addr: u32) -> spec_fn(u32) -> bool {
    |x: u32| x != addr
}

/// The breakpoints after a click on `addr`: one there is removed, or else
/// one is added at the end.
pub open spec fn toggled(bps: Seq<u32>, addr: u32) -> Seq<u32> {
    if bps.contains(addr) {
        bps.filter(other_breakpoint(addr))
    } else {
        bps.push(addr)
    }
}

/// Sets or removes the breakpoint at `addr`, and gives the request that
/// the simulator loop must serve for it.
pub fn toggle_breakpoint(breakpoints: &mut Vec<u32>, addr: u32) -> (r: DebugRequest)
    ensures
        final(breakpoints)@ == toggled(old(breakpoints)@, addr),
        r == (if old(breakpoints)@.contains(addr) {
            DebugRequest::DeleteBreakpoint(addr)
        } else {
            DebugRequest::CreateBreakpoint(addr)
        }),
{
    let mut present = false;
    let mut kept: Vec<u32> = Vec::new();
    let mut i: usize = 0;
    while i < breakpoints.len()
        invariant
            i <= breakpoints@.len(),
            kept@ == breakpoints@.take(i as int).filter(other_breakpoint(addr)),
            present == breakpoints@.take(i as int).contains(addr),
        decreases breakpoints@.len() - i,
    {
        let b = breakpoints[i];
        if b == addr {
            present = true;
        } else {
            kept.push(b);
        }
        proof {
            let t = breakpoints@.take(i as int + 1);
            assert(t.drop_last() == breakpoints@.take(i as int));
            assert(t.last() == b);
            reveal_with_fuel(Seq::filter, 1);
            assert(kept@ == t.filter(other_breakpoint(addr)));
            assert(t =~= breakpoints@.take(i as int).push(b));
            if present {
                if b != addr {
                    let k = choose|k: int| 0 <= k < i && breakpoints@.take(i as int)[k] == addr;
                    assert(t[k] == addr);
                } else {
                    assert(t[i as int] == addr);
                }
            } else {
                assert forall|k: int| 0 <= k < t.len() implies t[k] != addr by {
                    if k < i {
                        assert(t[k] == breakpoints@.take(i as int)[k]);
                    }
                }
            }
        }
        i = i + 1;
    }
    proof {
        assert(breakpoints@.take(breakpoints@.len() as int) =~= breakpoints@);
    }
    if present {
        *breakpoints = kept;
        DebugRequest::DeleteBreakpoint(addr)
    } else {
        breakpoints.push(addr);
        DebugRequest::CreateBreakpoint(addr)
    }
}

proof fn lemma_filter_keeps_all(bps: Seq<u32>, addr: u32)
    requires
        !bps.contains(addr),
    ensures
        bps.filter(other_breakpoint(addr)) == bps,
    decreases bps.len(),
{
    if bps.len() > 0 {
        let rest = bps.drop_last();
        assert(!rest.contains(addr)) by {
            if rest.contains(addr) {
                let k = choose|k: int| 0 <= k < rest.len() && rest[k] == addr;
                assert(bps[k] == addr);
            }
        }
        lemma_filter_keeps_all(rest, addr);
        assert(rest.push(bps.last()) =~= bps);
        rest.lemma_filter_push(bps.last(), other_breakpoint(addr));
    } else {
        reveal_with_fuel(Seq::filter, 1);
        assert(bps.filter(other_breakpoint(addr)) =~= bps);
    }
}

/// Two clicks on the same address leave the same set of breakpoints; where
/// there was none, the same list.
pub proof fn lemma_toggle_twice(bps: Seq<u32>, addr: u32)
    ensures
        toggled(toggled(bps, addr), addr).to_set() == bps.to_set(),
        !bps.contains(addr) ==> toggled(toggled(bps, addr), addr) == bps,
{
    broadcast use vstd::seq_lib::group_filter_ensures;
    let once = toggled(bps, addr);
    let twice = toggled(once, addr);
    if bps.contains(addr) {
        let f = bps.filter(other_breakpoint(addr));
        assert(!f.contains(addr)) by {
            if f.contains(addr) {
                let k = choose|k: int| 0 <= k < f.len() && f[k] == addr;
                assert(other_breakpoint(addr)(f[k]));
            }
        }
        assert(twice == f.push(addr));
        assert forall|x: u32| twice.to_set().contains(x) <==> bps.to_set().contains(x) by {
            if x == addr {
                assert(twice[twice.len() - 1] == addr);
            } else {
                if bps.contains(x) {
                    let k = choose|k: int| 0 <= k < bps.len() && bps[k] == x;
                    assert(other_breakpoint(addr)(bps[k]));
                    assert(f.contains(x));
                    let j = choose|j: int| 0 <= j < f.len() && f[j] == x;
                    assert(twice[j] == x);
                }
                if twice.contains(x) {
                    let k = choose|k: int| 0 <= k < twice.len() && twice[k] == x;
                    assert(f[k] == x);
                    bps.lemma_filter_contains_rev(other_breakpoint(addr), x);
                }
            }
        }
        assert(twice.to_set() =~= bps.to_set());
    } else {
        assert(once.contains(addr)) by {
            assert(once[once.len() - 1] == addr);
        }
        bps.lemma_filter_push(addr, other_breakpoint(addr));
        lemma_filter_keeps_all(bps, addr);
    }
}

/// The start address field of a memory explorer pane before anything was
/// typed into it.
pub open spec fn start_placeholder() -> Seq<char> {
    "start (hex) "@
}

/// The message shown when an address field does not hold a hexadecimal
/// number.
pub open spec fn parse_error_text(field: Seq<char>) -> Seq<char> {
    "could not parse '"@ + field + "' as a hexadecimal"@
}

/// The views after the start of the view `id` was set to `v`: a new view
/// of the one byte there, as unsigned words, where there was none.
pub open spec fn with_start(views: Map<u64, MemoryView>, id: u64, v: u32) -> Map<u64, MemoryView> {
    if views.contains_key(id) {
        views.insert(id, MemoryView { start: v, ..views[id] })
    } else {
        views.insert(id, MemoryView { start: v, end: if v == u32::MAX { v } else { (v + 1) as u32 }, view_cast: Cast::UWORD })
    }
}

/// The views after the end of the view `id` was set to `v`: a new view
/// of the byte before it, as unsigned words, where there was none.
pub open spec fn with_end(views: Map<u64, MemoryView>, id: u64, v: u32) -> Map<u64, MemoryView> {
    if views.contains_key(id) {
        views.insert(id, MemoryView { end: v, ..views[id] })
    } else {
        views.insert(id, MemoryView { start: if v == 0 { 0 } else { (v - 1) as u32 }, end: v, view_cast: Cast::UWORD })
    }
}

/// What the start address field of the pane `id` holds.
pub open spec fn start_field(map: ExplorerMap, id: u64) -> Seq<char> {
    if map.starts().contains_key(id) {
        map.starts()[id]@
    } else {
        start_placeholder()
    }
}

/// The state of the memory explorer after an update of the pane `id` from
/// its address fields: the start field, then the end field where one was
/// typed, each one that holds a hexadecimal number setting the view and
/// `update_view` and clearing the error, each one that does not leaving its
/// message as the error.
pub open spec fn explorer_updated(
    map: ExplorerMap,
    map2: ExplorerMap,
    id: u64,
    update_view: bool,
    update_view2: bool,
    view_error2: Option<String>,
) -> bool {
    let st = start_field(map, id);
    let v1 = match hex_input_value(st) {
        Some(v) => with_start(map.views(), id, v),
        None => map.views(),
    };
    let ok1 = hex_input_value(st) is Some;
    &&& map2.starts() == map.starts()
    &&& map2.ends() == map.ends()
    &&& if map.ends().contains_key(id) {
        let en = map.ends()[id]@;
        &&& map2.views() == match hex_input_value(en) {
            Some(v) => with_end(v1, id, v),
            None => v1,
        }
        &&& update_view2 == (update_view || ok1 || hex_input_value(en) is Some)
        &&& match hex_input_value(en) {
            Some(_) => view_error2 is None,
            None => view_error2 matches Some(m) && m@ == parse_error_text(en),
        }
    } else {
        &&& map2.views() == v1
        &&& update_view2 == (update_view || ok1)
        &&& match hex_input_value(st) {
            Some(_) => view_error2 is None,
            None => view_error2 matches Some(m) && m@ == parse_error_text(st),
        }
    }
}

/// Sets the view of the pane `id` from its address fields: the start
/// field, then the end field where one was typed. A field that holds a
/// hexadecimal number sets `update_view` and clears `view_error`; one that
/// does not puts its message in `view_error`.
pub fn explorer_update(map: &mut ExplorerMap, id: u64, update_view: &mut bool, view_error: &mut Option<String>)
    ensures
        explorer_updated(*old(map), *final(map), id, *old(update_view), *final(update_view), *final(view_error)),
{
    proof {
        reveal_strlit("start (hex) ");
        reveal_strlit("could not parse '");
        reveal_strlit("' as a hexadecimal");
    }
    let pend_start = match map.get_start(id) {
        Some(s) => s,
        None => String::from_str("start (hex) "),
    };
    match parse_hex(pend_start.as_str()) {
        Some(v) => {
            let new_view = match map.view_of(id) {
                Some(pv) => MemoryView { start: v, end: pv.end, view_cast: pv.view_cast },
                None => MemoryView { start: v, end: if v == u32::MAX { u32::MAX } else { v + 1 }, view_cast: Cast::UWORD },
            };
            map.set_view(id, new_view);
            *update_view = true;
            *view_error = None;
        },
        None => {
            let mut msg = String::from_str("could not parse '");
            msg.append(pend_start.as_str());
            msg.append("' as a hexadecimal");
            *view_error = Some(msg);
        },
    }
    if let Some(pend_end) = map.get_end(id) {
        match parse_hex(pend_end.as_str()) {
            Some(v) => {
                let new_view = match map.view_of(id) {
                    Some(pv) => MemoryView { start: pv.start, end: v, view_cast: pv.view_cast },
                    None => MemoryView { start: if v == 0 { 0 } else { v - 1 }, end: v, view_cast: Cast::UWORD },
                };
                map.set_view(id, new_view);
                *update_view = true;
                *view_error = None;
            },
            None => {
                let mut msg = String::from_str("could not parse '");
                msg.append(pend_end.as_str());
                msg.append("' as a hexadecimal");
                *view_error = Some(msg);
            },
        }
    }
}

/// The views after the cast of the view `id` was set to `c`: a new view of
/// the first 256 bytes where there was none.
pub open spec fn with_cast(views: Map<u64, MemoryView>, id: u64, c: Cast) -> Map<u64, MemoryView> {
    if views.contains_key(id) {
        views.insert(id, MemoryView { view_cast: c, ..views[id] })
    } else {
        views.insert(id, MemoryView { start: 0, end: 0xFF, view_cast: c })
    }
}

/// Sets how the pane `id` reads memory.
pub fn explorer_set_cast(map: &mut ExplorerMap, id: u64, c: Cast)
    ensures
        final(map).views() == with_cast(old(map).views(), id, c),
        final(map).starts() == old(map).starts(),
        final(map).ends() == old(map).ends(),
{
    let new_view = match map.view_of(id) {
        Some(pv) => MemoryView { start: pv.start, end: pv.end, view_cast: c },
        None => MemoryView { start: 0, end: 0xFF, view_cast: c },
    };
    map.set_view(id, new_view);
}

/// Where a search match is highlighted on a line of the listing, whose
/// address column ends at the column of the first colon: a part in the
/// address column and a part in the rest of the line, each as the column
/// where it starts in its part of the line and its length.
#[derive(Clone, Copy, Debug, PartialEq, Eq, Structural)]
pub struct Highlight {
    pub address: Option<Span>,
    pub rest: Option<Span>,
}

/// A run of columns: where it starts and how many it holds.
#[derive(Clone, Copy, Debug, PartialEq, Eq, Structural)]
pub struct Span {
    pub start: usize,
    pub len: usize,
}

/// How a match of `len` characters at column `offset` is highlighted on a
/// line whose address column ends at `address_end`: a match that starts in
/// the address column is cut at its end and goes on at the start of the
/// rest of the line; one that starts later is placed relative to the rest.
pub open spec fn highlight_of(offset: usize, len: usize, address_end: usize) -> Highlight {
    if offset < address_end {
        Highlight {
            address: Some(Span { start: offset, len: if len < address_end - offset { len } else { (address_end - offset) as usize } }),
            rest: if offset + len > address_end { Some(Span { start: 0, len: (offset + len - address_end) as usize }) } else { None },
        }
    } else {
        Highlight { address: None, rest: Some(Span { start: (offset - address_end) as usize, len }) }
    }
}

/// The highlight of a match of `len` characters at column `offset` on a
/// line whose address column ends at `address_end`.
pub fn search_highlight(offset: usize, len: usize, address_end: usize) -> (r: Highlight)
    requires
        offset + len <= usize::MAX,
    ensures
        r == highlight_of(offset, len, address_end),
{
    if offset < address_end {
        let in_address = if len < address_end - offset {
            len
        } else {
            address_end - offset
        };
        let rest = if offset + len > address_end {
            Some(Span { start: 0, len: offset + len - address_end })
        } else {
            None
        };
        Highlight { address: Some(Span { start: offset, len: in_address }), rest }
    } else {
        Highlight { address: None, rest: Some(Span { start: offset - address_end, len }) }
    }
}

/// A key that a shortcut uses.
#[derive(Clone, Copy, Debug, PartialEq, Eq, Structural)]
pub enum Key {
    Enter,
    D,
    F,
    Backspace,
    Other,
}

/// What a keyboard shortcut asks for.
#[derive(Clone, Copy, Debug, PartialEq, Eq, Structural)]
pub enum Shortcut {
    CentreDisassembler,
    ClearBreakpoints,
    OpenSearchBar,
    CloseFocusedPane,
}

/// The shortcut of releasing `key` with the modifiers `alt` and `control`;
/// `ignored` tells that no widget took the key: `Alt + Enter`, `Ctrl + d`
/// and backspace act only then, `Ctrl + f` always.
pub open spec fn shortcut_of(key: Key, alt: bool, control: bool, ignored: bool) -> Option<Shortcut> {
    match key {
        Key::Enter => if alt && ignored {
            Some(Shortcut::CentreDisassembler)
        } else {
            None
        },
        Key::D => if control && ignored {
            Some(Shortcut::ClearBreakpoints)
        } else {
            None
        },
        Key::F => if control {
            Some(Shortcut::OpenSearchBar)
        } else {
            None
        },
        Key::Backspace => if ignored {
            Some(Shortcut::CloseFocusedPane)
        } else {
            None
        },
        Key::Other => None,
    }
}

/// The shortcut of releasing `key`, where there is one.
pub fn shortcut(key: Key, alt: bool, control: bool, ignored: bool) -> (r: Option<Shortcut>)
    ensures
        r == shortcut_of(key, alt, control, ignored),
{
    match key {
        Key::Enter => if alt && ignored {
            Some(Shortcut::CentreDisassembler)
        } else {
            None
        },
        Key::D => if control && ignored {
            Some(Shortcut::ClearBreakpoints)
        } else {
            None
        },
        Key::F => if control {
            Some(Shortcut::OpenSearchBar)
        } else {
            None
        },
        Key::Backspace => if ignored {
            Some(Shortcut::CloseFocusedPane)
        } else {
            None
        },
        Key::Other => None,
    }
}

} // verus!
