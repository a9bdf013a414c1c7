//! A log of lines that keeps only the most recent records.
use vstd::prelude::*;
use vstd::string::{StringExecFns, StrSliceExecFns};
use crate::thumb::decode_operands::push_char;

verus! {

/// A text log that counts the records written to it and can be trimmed to
/// a maximum number of them.
pub struct Trace {
    log: String,
    writes: u16,
    max_records: u16,
}

/// `text` without its first line, up to and including the first newline.
pub open spec fn drop_line(text: Seq<char>) -> Seq<char>
    decreases text.len(),
{
    if text.len() == 0 {
        text
    } else if text[0] == '\n' {
        text.drop_first()
    } else {
        drop_line(text.drop_first())
    }
}

/// Whether trimming a log `text` with `writes` records to `max` records
/// never counts below zero.
pub open spec fn trim_defined(text: Seq<char>, writes: nat, max: nat) -> bool
    decreases writes,
{
    writes >= max && text.contains('\n') ==> writes > 0 && trim_defined(drop_line(text), (writes - 1) as nat, max)
}

/// The log and record count after trimming: while there are at least
/// `max` records and a line to drop, the first line goes and the count
/// falls by one.
pub open spec fn trimmed(text: Seq<char>, writes: nat, max: nat) -> (Seq<char>, nat)
    decreases writes,
{
    if writes >= max && text.contains('\n') && writes > 0 {
        trimmed(drop_line(text), (writes - 1) as nat, max)
    } else {
        (text, writes)
    }
}

/// Trimming leaves fewer records than the maximum, or no line left to
/// drop.
pub proof fn lemma_trimmed_bound(text: Seq<char>, writes: nat, max: nat)
    requires
        trim_defined(text, writes, max),
    ensures
        trimmed(text, writes, max).1 < max || !trimmed(text, writes, max).0.contains('\n'),
        trimmed(text, writes, max).1 <= writes,
    decreases writes,
{
    if writes >= max && text.contains('\n') && writes > 0 {
        lemma_trimmed_bound(drop_line(text), (writes - 1) as nat, max);
    }
}

proof fn lemma_drop_line(text: Seq<char>, i: int)
    requires
        0 <= i < text.len(),
        text[i] == '\n',
        forall|j: int| 0 <= j < i ==> text[j] != '\n',
    ensures
        drop_line(text) == text.subrange(i + 1, text.len() as int),
    decreases i,
{
    if i > 0 {
        lemma_drop_line(text.drop_first(), i - 1);
        assert(text.drop_first().subrange(i, text.len() - 1) =~= text.subrange(i + 1, text.len() as int));
    } else {
        assert(text.drop_first() =~= text.subrange(1, text.len() as int));
    }
}

/// Whether `suffix` matches the end of `text`.
fn text_ends_with(text: &String, suffix: &str) -> (r: bool)
    ensures
        r == suffix@.is_suffix_of(text@),
{
    let t = text.as_str();
    let n = t.unicode_len();
    let m = suffix.unicode_len();
    if m > n {
        return false;
    }
    let mut k: usize = 0;
    while k < m
        invariant
            n == text@.len(),
            m == suffix@.len(),
            m <= n,
            k <= m,
            t@ == text@,
            forall|j: int| 0 <= j < k ==> suffix@[j] == text@[n - m + j],
        decreases m - k,
    {
        if suffix.get_char(k) != t.get_char(n - m + k) {
            return false;
        }
        k = k + 1;
    }
    proof {
        assert(text@.subrange(n - m, n as int) =~= suffix@);
    }
    true
}

impl Trace {
    /// The text of the log.
    pub closed spec fn text(&self) -> Seq<char> {
        self.log@
    }

    /// The number of records counted.
    pub closed spec fn writes(&self) -> u16 {
        self.writes
    }

    /// The number of records the log keeps when trimmed.
    pub closed spec fn max_records(&self) -> u16 {
        self.max_records
    }

    /// An empty log that keeps `max` records.
    pub fn create(max: u16) -> (r: Self)
        ensures
            r.text() == Seq::<char>::empty(),
            r.writes() == 0,
            r.max_records() == max,
    {
        Self { log: String::new(), writes: 0, max_records: max }
    }

    /// The text of the log, to write a record into; counts the record.
    pub fn get(&mut self) -> (r: &mut String)
        requires
            old(self).writes() < u16::MAX,
        ensures
            r@ == old(self).text(),
            final(self).text() == final(r)@,
            final(self).writes() == old(self).writes() + 1,
            final(self).max_records() == old(self).max_records(),
    {
        self.writes = self.writes + 1;
        &mut self.log
    }

    /// Appends a character, which starts no record.
    pub fn push(&mut self, ch: char)
        ensures
            final(self).text() == old(self).text().push(ch),
            final(self).writes() == old(self).writes(),
            final(self).max_records() == old(self).max_records(),
    {
        push_char(&mut self.log, ch);
    }

    /// Appends `line` as a record.
    pub fn push_str(&mut self, line: &str)
        requires
            old(self).writes() < u16::MAX,
        ensures
            final(self).text() == old(self).text() + line@,
            final(self).writes() == old(self).writes() + 1,
            final(self).max_records() == old(self).max_records(),
    {
        self.writes = self.writes + 1;
        self.log.append(line);
    }

    /// Whether the log ends with `line`.
    pub fn ends_with(&self, line: &str) -> (r: bool)
        ensures
            r == line@.is_suffix_of(self.text()),
    {
        text_ends_with(&self.log, line)
    }

    /// A copy of the text of the log.
    pub fn clone(&self) -> (r: String)
        ensures
            r@ == self.text(),
    {
        self.log.clone()
    }

    /// Drops the oldest lines while the log holds at least its maximum of
    /// records.
    pub fn trim(&mut self)
        requires
            trim_defined(old(self).text(), old(self).writes() as nat, old(self).max_records() as nat),
        ensures
            (final(self).text(), final(self).writes() as nat) == trimmed(
                old(self).text(),
                old(self).writes() as nat,
                old(self).max_records() as nat,
            ),
            final(self).max_records() == old(self).max_records(),
    {
        let ghost goal = trimmed(self.log@, self.writes as nat, self.max_records as nat);
        while self.writes >= self.max_records
            invariant_except_break
                trim_defined(self.log@, self.writes as nat, self.max_records as nat),
                trimmed(self.log@, self.writes as nat, self.max_records as nat) == goal,
                self.max_records == old(self).max_records,
            ensures
                trimmed(self.log@, self.writes as nat, self.max_records as nat) == goal,
                (self.log@, self.writes as nat) == goal,
                self.max_records == old(self).max_records,
            decreases self.writes,
        {
            let n = self.log.as_str().unicode_len();
            let mut i: usize = 0;
            while i < n && self.log.as_str().get_char(i) != '\n'
                invariant
                    i <= n,
                    n == self.log@.len(),
                    forall|j: int| 0 <= j < i ==> self.log@[j] != '\n',
                decreases n - i,
            {
                i = i + 1;
            }
            if i == n {
                proof {
                    assert(!self.log@.contains('\n'));
                }
                break;
            }
            proof {
                lemma_drop_line(self.log@, i as int);
                assert(self.log@.contains('\n'));
            }
            let rest = self.log.as_str().substring_char(i + 1, n).to_owned();
            self.log = rest;
            self.writes = self.writes - 1;
        }
    }
}

} // verus!
