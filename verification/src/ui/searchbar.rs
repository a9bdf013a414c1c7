//! The search bar: what is searched for, the matches found, and which of
//! them has the focus.
use vstd::prelude::*;
use vstd::string::StringExecFns;
use std::collections::BTreeMap;
use crate::thumb::search::{TextPosition, find_string_position, positions_upto};
use super::{Cast, cast_name};

verus! {

broadcast use {vstd::laws_cmp::group_laws_cmp, vstd::std_specs::btree::group_btree_axioms};

/// What a search looks for: text of the disassembly, or a sequence in the
/// binary.
#[derive(Clone, Copy, Debug, PartialEq, Eq, Structural)]
pub enum Kind {
    Code,
    Ascii,
    Num(Cast),
}

/// The matches of the last search.
#[derive(Clone, Debug)]
pub enum Occurance {
    Text(Vec<TextPosition>),
    Bin(Vec<usize>),
}

/// Why a search could not run.
#[derive(Clone, Copy, Debug, PartialEq, Eq, Structural)]
pub enum SearchError {
    InvalidTarget,
    ElementExistsOutsideDisassembly,
}

/// A search bar: its kind, its target, the matches found, a cursor that
/// walks them and the match that has the focus.
pub struct SearchBar {
    pub kind: Kind,
    pub target: String,
    pub pending: String,
    occurances: Occurance,
    cursor: usize,
    focus: Option<usize>,
}

/// The number of matches held.
pub open spec fn occurance_count(o: Occurance) -> nat {
    match o {
        Occurance::Text(v) => v@.len(),
        Occurance::Bin(v) => v@.len(),
    }
}

/// The help text of a search of kind `k`.
pub open spec fn help_text(k: Kind) -> Seq<char> {
    match k {
        Kind::Code => "(Code search): Search the disassembled text"@,
        Kind::Ascii => "(Ascii search): Search the binary for an ascii sequence"@,
        Kind::Num(t) => "("@ + cast_name(t) + " search): Search the binary for a "@ + cast_name(t)
            + " sequence"@,
    }
}

/// The text matches on line `k`, in order.
pub open spec fn on_line(v: Seq<TextPosition>, k: usize) -> Seq<TextPosition> {
    v.filter(|p: TextPosition| p.line_number == k)
}

impl SearchBar {
    /// The kind of search.
    pub closed spec fn kind_is(&self) -> Kind {
        self.kind
    }

    /// The text searched for.
    pub closed spec fn target_text(&self) -> Seq<char> {
        self.target@
    }

    /// The text being typed in.
    pub closed spec fn pending_text(&self) -> Seq<char> {
        self.pending@
    }

    /// The matches of the last search.
    pub closed spec fn results(&self) -> Occurance {
        self.occurances
    }

    /// The position of the cursor in the text matches.
    pub closed spec fn cursor_at(&self) -> usize {
        self.cursor
    }

    /// The match that has the focus.
    pub closed spec fn focused(&self) -> Option<usize> {
        self.focus
    }

    /// An empty search of the disassembly.
    pub fn create() -> (r: Self)
        ensures
            r.kind_is() == Kind::Code,
            r.target_text() == Seq::<char>::empty(),
            r.pending_text() == Seq::<char>::empty(),
            r.results() matches Occurance::Text(v) && v@.len() == 0,
            r.cursor_at() == 0,
            r.focused() is None,
    {
        Self {
            kind: Kind::Code,
            target: String::new(),
            pending: String::new(),
            occurances: Occurance::Text(Vec::new()),
            cursor: 0,
            focus: None,
        }
    }

    /// What a search of this kind does.
    pub fn help(&self) -> (r: String)
        ensures
            r@ == help_text(self.kind_is()),
    {
        match self.kind {
            Kind::Code => String::from_str("(Code search): Search the disassembled text"),
            Kind::Ascii => String::from_str("(Ascii search): Search the binary for an ascii sequence"),
            Kind::Num(t) => {
                let mut text = String::from_str("(");
                text.append(t.name());
                text.append(" search): Search the binary for a ");
                text.append(t.name());
                text.append(" sequence");
                text
            },
        }
    }

    /// The text match under the cursor, if the cursor is on one.
    pub fn current_text_occurance(&self) -> (r: Option<TextPosition>)
        requires
            self.results() matches Occurance::Text(v) ==> self.cursor_at() <= v@.len(),
        ensures
            r == match self.results() {
                Occurance::Text(v) => if self.cursor_at() == v@.len() || v@.len() == 0 {
                    None
                } else {
                    Some(v@[self.cursor_at() as int])
                },
                Occurance::Bin(_) => None,
            },
    {
        match &self.occurances {
            Occurance::Text(positions) => {
                if self.cursor == positions.len() {
                    return None;
                }
                if positions.len() == 0 {
                    return None;
                }
                Some(positions[self.cursor])
            },
            _ => None,
        }
    }

    /// The text match under the cursor, moving the cursor past it.
    pub fn next_text_occurance(&mut self) -> (r: Option<TextPosition>)
        requires
            old(self).results() matches Occurance::Text(v) ==> old(self).cursor_at() <= v@.len(),
        ensures
            r == match old(self).results() {
                Occurance::Text(v) => if old(self).cursor_at() == v@.len() || v@.len() == 0 {
                    None
                } else {
                    Some(v@[old(self).cursor_at() as int])
                },
                Occurance::Bin(_) => None,
            },
            final(self).cursor_at() == if r is Some {
                (old(self).cursor_at() + 1) as usize
            } else {
                old(self).cursor_at()
            },
            final(self).results() == old(self).results(),
            final(self).focused() == old(self).focused(),
            final(self).kind_is() == old(self).kind_is(),
            final(self).target_text() == old(self).target_text(),
            final(self).pending_text() == old(self).pending_text(),
    {
        match &self.occurances {
            Occurance::Text(v) => {
                let n = v.len();
                let current = self.current_text_occurance();
                if current.is_some() {
                    proof {
                        assert(self.cursor < n);
                    }
                    self.cursor = self.cursor + 1;
                }
                current
            },
            Occurance::Bin(_) => None,
        }
    }

    /// Whether `position` is the match that has the focus.
    pub fn is_focused(&self, position: &TextPosition) -> (r: bool)
        requires
            self.focused() matches Some(f) ==> (self.results() matches Occurance::Text(v) && f < v@.len()),
        ensures
            r == match (self.focused(), self.results()) {
                (Some(f), Occurance::Text(v)) => v@[f as int] == *position,
                _ => false,
            },
    {
        match &self.focus {
            Some(f) => match &self.occurances {
                Occurance::Text(v) => v[*f].line_number == position.line_number && v[*f].line_offset
                    == position.line_offset,
                Occurance::Bin(_) => false,
            },
            None => false,
        }
    }

    /// The match that has the focus.
    pub fn get_focused_search_result(&self) -> (r: Option<TextPosition>)
        requires
            self.focused() matches Some(f) ==> (self.results() matches Occurance::Text(v) && f < v@.len()),
        ensures
            r == match (self.focused(), self.results()) {
                (Some(f), Occurance::Text(v)) => Some(v@[f as int]),
                _ => None::<TextPosition>,
            },
    {
        match &self.focus {
            Some(f) => match &self.occurances {
                Occurance::Text(v) => Some(v[*f]),
                Occurance::Bin(_) => None,
            },
            None => None,
        }
    }

    /// The text matches grouped by line.
    pub fn text_occurances(&self) -> (r: BTreeMap<usize, Vec<TextPosition>>)
        ensures
            match self.results() {
                Occurance::Text(v) => {
                    &&& forall|k: usize| #[trigger] r@.contains_key(k) <==> exists|i: int| 0 <= i < v@.len() && v@[i].line_number == k
                    &&& forall|k: usize| #[trigger] r@.contains_key(k) ==> r@[k]@ == on_line(v@, k)
                },
                Occurance::Bin(_) => r@.dom().is_empty(),
            },
    {
        let mut occ: BTreeMap<usize, Vec<TextPosition>> = BTreeMap::new();
        match &self.occurances {
            Occurance::Text(v) => {
                let mut i: usize = 0;
                proof {
                    assert forall|k: usize| !#[trigger] occ@.contains_key(k) implies on_line(v@.take(0), k).len() == 0 by {
                        #[allow(deprecated)]
                        v@.take(0).filter_lemma(|p: TextPosition| p.line_number == k);
                    }
                }
                while i < v.len()
                    invariant
                        i <= v@.len(),
                        forall|k: usize| #[trigger] occ@.contains_key(k) <==> exists|j: int| 0 <= j < i && v@[j].line_number == k,
                        forall|k: usize| #[trigger] occ@.contains_key(k) ==> occ@[k]@ == on_line(v@.take(i as int), k),
                        forall|k: usize| !#[trigger] occ@.contains_key(k) ==> on_line(v@.take(i as int), k).len() == 0,
                    decreases v@.len() - i,
                {
                    let pos = v[i];
                    let line = pos.line_number;
                    let ghost before = occ@;
                    proof {
                        assert(v@.take(i as int + 1) == v@.take(i as int).push(pos));
                        assert forall|k: usize| #[trigger] on_line(v@.take(i as int + 1), k) == if k == line {
                            on_line(v@.take(i as int), k).push(pos)
                        } else {
                            on_line(v@.take(i as int), k)
                        } by {
                            v@.take(i as int).lemma_filter_push(pos, |p: TextPosition| p.line_number == k);
                        }
                    }
                    match occ.remove(&line) {
                        Some(mut list) => {
                            list.push(pos);
                            occ.insert(line, list);
                        },
                        None => {
                            proof {
                                assert(on_line(v@.take(i as int), line) =~= Seq::<TextPosition>::empty());
                            }
                            let mut list: Vec<TextPosition> = Vec::new();
                            list.push(pos);
                            occ.insert(line, list);
                        },
                    }
                    proof {
                        assert forall|k: usize| #[trigger] occ@.contains_key(k) <==> exists|j: int| 0 <= j < i + 1 && v@[j].line_number == k by {
                            if k == line {
                                assert(v@[i as int].line_number == k);
                            }
                        }
                    }
                    i = i + 1;
                }
                proof {
                    assert(v@.take(v@.len() as int) =~= v@);
                }
            },
            Occurance::Bin(_) => {},
        }
        occ
    }

    /// Moves the focus to the next match, wrapping round; gives the match
    /// that had the focus, or the first where none had.
    pub fn focus_next(&mut self) -> (r: Option<usize>)
        requires
            old(self).focused() matches Some(i) ==> i < usize::MAX,
        ensures
            occurance_count(old(self).results()) == 0 ==> r is None && final(self).focused() == old(self).focused(),
            occurance_count(old(self).results()) > 0 ==> match old(self).focused() {
                Some(i) => r == Some(i) && final(self).focused() == Some(((i + 1) % (occurance_count(old(self).results()) as int)) as usize),
                None => r == Some(0usize) && final(self).focused() == Some(0usize),
            },
            final(self).results() == old(self).results(),
            final(self).cursor_at() == old(self).cursor_at(),
            final(self).kind_is() == old(self).kind_is(),
            final(self).target_text() == old(self).target_text(),
            final(self).pending_text() == old(self).pending_text(),
    {
        let len = match &self.occurances {
            Occurance::Text(v) => v.len(),
            Occurance::Bin(v) => v.len(),
        };
        if len == 0 {
            return None;
        }
        match self.focus {
            Some(i) => {
                self.focus = Some((i + 1) % len);
                Some(i)
            },
            None => {
                self.focus = Some(0);
                Some(0)
            },
        }
    }

    /// Searches the disassembly `disasm` for the target; clears the focus.
    pub fn find(&mut self, disasm: &str) -> (r: Result<(), SearchError>)
        requires
            old(self).kind_is() == Kind::Code,
        ensures
            r is Ok,
            final(self).results() matches Occurance::Text(v) && (if old(self).target_text().len() == 0 {
                v@.len() == 0
            } else {
                v@ == positions_upto(disasm@, old(self).target_text(), (disasm@.len() + 1) as nat)
            }),
            final(self).focused() is None,
            final(self).cursor_at() == old(self).cursor_at(),
            final(self).kind_is() == old(self).kind_is(),
            final(self).target_text() == old(self).target_text(),
            final(self).pending_text() == old(self).pending_text(),
    {
        self.focus = None;
        let places = find_string_position(disasm, self.target.as_str());
        self.occurances = Occurance::Text(places);
        Ok(())
    }
}

} // verus!
