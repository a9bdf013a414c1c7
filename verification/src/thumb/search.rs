//! Knuth-Morris-Pratt search of text and bytes.
use vstd::prelude::*;
use vstd::std_specs::iter::IteratorSpec;
use vstd::string::StrSliceExecFns;
use crate::ui::window::{next_newline, line_start, lemma_next_newline, lemma_line_start};

verus! {

/// `k` is a proper border of the first `m` items of `s`: the first `k`
/// items equal the `k` items that end at `m`, and `k < m`.
pub open spec fn is_border<A>(s: Seq<A>, m: int, k: int) -> bool {
    &&& 0 <= k < m <= s.len()
    &&& forall|j: int| 0 <= j < k ==> #[trigger] s[j] == s[m - k + j]
}

/// `lps` holds, for each prefix of `s`, the length of its longest proper
/// border.
pub open spec fn is_lps<A>(s: Seq<A>, lps: Seq<usize>) -> bool {
    &&& lps.len() == s.len()
    &&& forall|i: int| 0 <= i < s.len() ==> is_border(s, i + 1, #[trigger] lps[i] as int)
    &&& forall|m: int, k: int| 1 <= m <= s.len() && #[trigger] is_border(s, m, k) ==> k <= lps[m - 1]
}

/// Every proper border of the first `m` items of `s` is at most `bound`.
pub open spec fn borders_at_most<A>(s: Seq<A>, m: int, bound: int) -> bool {
    forall|k: int| #[trigger] is_border(s, m, k) ==> k <= bound
}

/// `needle` occurs in `hay` at `p`.
pub open spec fn occurs<A>(hay: Seq<A>, needle: Seq<A>, p: int) -> bool {
    &&& 0 <= p && p + needle.len() <= hay.len()
    &&& forall|j: int| 0 <= j < needle.len() ==> #[trigger] hay[p + j] == needle[j]
}

/// `out` lists the occurrences of a non empty `needle` in `hay` that a
/// scan from the left takes: in increasing order, none overlapping the one
/// before, and every other occurrence overlapping one taken before it.
pub open spec fn is_match_list<A>(hay: Seq<A>, needle: Seq<A>, out: Seq<usize>) -> bool {
    &&& forall|i: int| 0 <= i < out.len() ==> occurs(hay, needle, #[trigger] out[i] as int)
    &&& forall|i: int, j: int| 0 <= i < j < out.len() ==> out[i] + needle.len() <= #[trigger] out[j] && #[trigger] out[i] < out[j]
    &&& forall|p: int| #[trigger] occurs(hay, needle, p) ==> exists|i: int| 0 <= i < out.len() && (out[i] == p || out[i] < p < out[i] + needle.len())
}

proof fn lemma_border_trans<A>(s: Seq<A>, m: int, a: int, b: int)
    requires
        is_border(s, m, a),
        is_border(s, a, b),
    ensures
        is_border(s, m, b),
{
    assert forall|j: int| 0 <= j < b implies #[trigger] s[j] == s[m - b + j] by {
        assert(s[j] == s[a - b + j]);
        assert(s[a - b + j] == s[m - a + (a - b + j)]);
    }
}

proof fn lemma_border_of_border<A>(s: Seq<A>, m: int, a: int, b: int)
    requires
        is_border(s, m, a),
        is_border(s, m, b),
        b < a,
    ensures
        is_border(s, a, b),
{
    assert forall|j: int| 0 <= j < b implies #[trigger] s[j] == s[a - b + j] by {
        assert(s[j] == s[m - b + j]);
        assert(s[m - a + (a - b + j)] == s[a - b + j]);
    }
}

proof fn lemma_border_shrink<A>(s: Seq<A>, m: int, b: int)
    requires
        is_border(s, m + 1, b),
        b >= 1,
    ensures
        is_border(s, m, b - 1),
{
    assert forall|j: int| 0 <= j < b - 1 implies #[trigger] s[j] == s[m - (b - 1) + j] by {
        assert(s[j] == s[m + 1 - b + j]);
    }
}

proof fn lemma_border_extend<A>(s: Seq<A>, m: int, b: int)
    requires
        is_border(s, m, b),
        m < s.len(),
        s[b] == s[m],
    ensures
        is_border(s, m + 1, b + 1),
{
    assert forall|j: int| 0 <= j < b + 1 implies #[trigger] s[j] == s[m + 1 - (b + 1) + j] by {
        if j < b {
            assert(s[j] == s[m - b + j]);
        }
    }
}

/// For each prefix of `needle`, the length of its longest proper border;
/// `[0]` for an empty needle.
pub fn build_bin_lps_list(needle: &[u8]) -> (lps: Vec<usize>)
    ensures
        needle@.len() == 0 ==> lps@ == seq![0usize],
        needle@.len() > 0 ==> is_lps(needle@, lps@),
{
    if needle.len() == 0 {
        return vec![0];
    }
    let ghost s = needle@;
    let m = needle.len();
    let mut lps: Vec<usize> = vec![0; m];
    let mut prev_lps: usize = 0;
    let mut lps_i: usize = 1;
    proof {
        assert(is_border(s, 1, 0));
        assert(borders_at_most(s, 1, 0));
        assert(borders_at_most(s, 2, 1)) by {
            assert forall|k: int| #[trigger] is_border(s, 2, k) implies k <= 1 by {}
        }
    }
    while lps_i < m
        invariant
            s == needle@,
            m == s.len(),
            lps@.len() == m,
            1 <= lps_i <= m,
            prev_lps < lps_i,
            is_border(s, lps_i as int, prev_lps as int),
            forall|i: int| 0 <= i < lps_i ==> is_border(s, i + 1, #[trigger] lps@[i] as int),
            forall|mm: int, k: int| 1 <= mm <= lps_i && #[trigger] is_border(s, mm, k) ==> k <= lps@[mm - 1],
            lps_i < m ==> borders_at_most(s, lps_i + 1, prev_lps + 1),
        decreases 2 * (m - lps_i) + prev_lps,
    {
        if needle[lps_i] == needle[prev_lps] {
            proof {
                lemma_border_extend(s, lps_i as int, prev_lps as int);
            }
            lps.set(lps_i, prev_lps + 1);
            prev_lps = prev_lps + 1;
            lps_i = lps_i + 1;
            proof {
                if lps_i < m {
                    assert forall|k: int| #[trigger] is_border(s, lps_i + 1, k) implies k <= prev_lps + 1 by {
                        if k >= 1 {
                            lemma_border_shrink(s, lps_i as int, k);
                            assert(k - 1 <= lps@[lps_i - 1]);
                        }
                    }
                }
            }
        } else {
            if prev_lps == 0 {
                proof {
                    assert forall|k: int| #[trigger] is_border(s, lps_i + 1, k) implies k <= 0 by {
                        if k == 1 {
                            assert(s[0] == s[lps_i + 1 - 1 + 0]);
                        }
                    }
                }
                lps.set(lps_i, 0);
                lps_i = lps_i + 1;
                proof {
                    if lps_i < m {
                        assert forall|k: int| #[trigger] is_border(s, lps_i + 1, k) implies k <= prev_lps + 1 by {
                            if k >= 1 {
                                lemma_border_shrink(s, lps_i as int, k);
                                assert(k - 1 <= lps@[lps_i - 1]);
                            }
                        }
                    }
                }
            } else {
                let next = lps[prev_lps - 1];
                proof {
                    lemma_border_trans(s, lps_i as int, prev_lps as int, next as int);
                    assert forall|k: int| #[trigger] is_border(s, lps_i + 1, k) implies k <= next + 1 by {
                        if k >= 1 {
                            if k == prev_lps + 1 {
                                assert(s[k - 1] == s[lps_i + 1 - k + (k - 1)]);
                            }
                            lemma_border_shrink(s, lps_i as int, k);
                            if k - 1 < prev_lps {
                                lemma_border_of_border(s, lps_i as int, prev_lps as int, k - 1);
                                assert(k - 1 <= lps@[prev_lps - 1]);
                            }
                        }
                    }
                }
                prev_lps = next;
            }
        }
    }
    lps
}


/// `hay` from `p` to `h` matches the start of `needle`.
pub open spec fn partial_match<A>(hay: Seq<A>, needle: Seq<A>, p: int, h: int) -> bool {
    &&& 0 <= p <= h <= hay.len()
    &&& h - p <= needle.len()
    &&& forall|j: int| p <= j < h ==> #[trigger] hay[j] == needle[j - p]
}

/// The state of a left to right scan that has taken the occurrences `out`
/// of all that start before `start`.
pub open spec fn scanned<A>(hay: Seq<A>, needle: Seq<A>, out: Seq<usize>, start: int) -> bool {
    &&& forall|i: int| 0 <= i < out.len() ==> occurs(hay, needle, #[trigger] out[i] as int)
    &&& forall|i: int, j: int| 0 <= i < j < out.len() ==> out[i] + needle.len() <= #[trigger] out[j] && #[trigger] out[i] < out[j]
    &&& forall|i: int| 0 <= i < out.len() ==> #[trigger] out[i] + needle.len() <= start
    &&& forall|p: int| #[trigger] occurs(hay, needle, p) && p < start ==> exists|i: int| 0 <= i < out.len() && (out[i] == p || out[i] < p < out[i] + needle.len())
}

/// The positions at which a non empty `needle` occurs in `haystack`, as a
/// scan from the left takes them: an occurrence that overlaps one taken is
/// skipped.
pub fn find_bin(haystack: &[u8], needle: &[u8]) -> (occurances: Vec<usize>)
    requires
        haystack@.len() > 0 ==> needle@.len() > 0,
    ensures
        needle@.len() > 0 ==> is_match_list(haystack@, needle@, occurances@),
        needle@.len() == 0 ==> occurances@.len() == 0,
{
    let ghost hay = haystack@;
    let ghost nd = needle@;
    let mut h: usize = 0;
    let mut n: usize = 0;
    let mut occurances: Vec<usize> = Vec::new();
    let lps = build_bin_lps_list(needle);
    let ghost mut start: int = 0;
    while h < haystack.len()
        invariant
            hay == haystack@,
            nd == needle@,
            nd.len() > 0 ==> is_lps(nd, lps@),
            hay.len() > 0 ==> nd.len() > 0,
            n < nd.len() || nd.len() == 0,
            start <= h - n,
            h <= hay.len(),
            partial_match(hay, nd, h - n, h as int),
            forall|p: int| start <= p < h - n ==> !#[trigger] occurs(hay, nd, p),
            scanned(hay, nd, occurances@, start),
            nd.len() == 0 ==> occurances@.len() == 0,
        decreases 2 * (hay.len() - h) + n,
    {
        if haystack[h] == needle[n] {
            h = h + 1;
            n = n + 1;
            proof {
                assert forall|p: int| start <= p < h - n implies !#[trigger] occurs(hay, nd, p) by {}
            }
        } else {
            if n == 0 {
                proof {
                    assert forall|p: int| start <= p < h + 1 implies !#[trigger] occurs(hay, nd, p) by {
                        if p == h && occurs(hay, nd, p) {
                            assert(hay[p + 0] == nd[0]);
                        }
                    }
                }
                h = h + 1;
            } else {
                let next = lps[n - 1];
                proof {
                    assert(is_border(nd, n as int, next as int));
                    assert forall|p: int| start <= p < h - next implies !#[trigger] occurs(hay, nd, p) by {
                        if p >= h - n && occurs(hay, nd, p) {
                            let b = h - p;
                            if b == n {
                                assert(hay[p + n] == nd[n as int]);
                            } else {
                                assert(is_border(nd, n as int, b)) by {
                                    assert forall|j: int| 0 <= j < b implies #[trigger] nd[j] == nd[n - b + j] by {
                                        assert(hay[p + j] == nd[j]);
                                        assert(hay[h - n + (n - b + j)] == nd[n - b + j]);
                                    }
                                }
                                assert(b <= lps@[n - 1]);
                            }
                        }
                    }
                    assert(partial_match(hay, nd, h - next, h as int)) by {
                        assert forall|j: int| h - next <= j < h implies #[trigger] hay[j] == nd[j - (h - next)] by {
                            assert(nd[j - (h - next)] == nd[n - next + (j - (h - next))]);
                        }
                    }
                }
                n = next;
            }
        }
        if n == needle.len() {
            let ghost p = h - n;
            proof {
                assert(occurs(hay, nd, p as int)) by {
                    assert forall|j: int| 0 <= j < nd.len() implies #[trigger] hay[p + j] == nd[j] by {
                        assert(hay[p + j] == nd[(p + j) - p]);
                    }
                }
            }
            let ghost old_out = occurances@;
            occurances.push(h - needle.len());
            proof {
                let out = occurances@;
                assert forall|q: int| #[trigger] occurs(hay, nd, q) && q < h implies exists|i: int| 0 <= i < out.len() && (out[i] == q || out[i] < q < out[i] + nd.len()) by {
                    if q < start {
                        let i = choose|i: int| 0 <= i < old_out.len() && (old_out[i] == q || old_out[i] < q < old_out[i] + nd.len());
                        assert(out[i] == old_out[i]);
                    } else if q < p {
                    } else {
                        assert(out[out.len() - 1] == p);
                    }
                }
                start = h as int;
            }
            n = 0;
        }
    }
    proof {
        if nd.len() > 0 {
            assert forall|p: int| #[trigger] occurs(hay, nd, p) implies exists|i: int| 0 <= i < occurances@.len() && (occurances@[i] == p || occurances@[i] < p < occurances@[i] + nd.len()) by {
                if p >= start {
                    assert(p < h - n);
                }
            }
        }
    }
    occurances
}


/// The characters of `text`.
pub(crate) fn chars_of(text: &str) -> (v: Vec<char>)
    ensures
        v@ == text@,
{
    broadcast use vstd::string::group_string_axioms;
    let mut v: Vec<char> = Vec::new();
    let mut it = text.chars();
    loop
        invariant
            it.obeys_prophetic_iter_laws(),
            it.decrease() is Some,
            v@ + it.remaining() == text@,
        ensures
            v@ == text@,
        decreases it.decrease()->0,
    {
        match it.next() {
            Some(c) => {
                proof {
                    assert(v@.push(c) + it.remaining() =~= text@);
                }
                v.push(c);
            },
            None => {
                proof {
                    assert(v@ =~= text@);
                }
                break;
            },
        }
    }
    v
}

/// `build_lps_list` on the characters of the needle.
fn lps_of_chars(needle: &Vec<char>) -> (lps: Vec<usize>)
    ensures
        needle@.len() == 0 ==> lps@ == seq![0usize],
        needle@.len() > 0 ==> is_lps(needle@, lps@),
{
    if needle.len() == 0 {
        return vec![0];
    }
    let ghost s = needle@;
    let m = needle.len();
    let mut lps: Vec<usize> = vec![0; m];
    let mut prev_lps: usize = 0;
    let mut lps_i: usize = 1;
    proof {
        assert(is_border(s, 1, 0));
        assert(borders_at_most(s, 1, 0));
        assert(borders_at_most(s, 2, 1)) by {
            assert forall|k: int| #[trigger] is_border(s, 2, k) implies k <= 1 by {}
        }
    }
    while lps_i < m
        invariant
            s == needle@,
            m == s.len(),
            lps@.len() == m,
            1 <= lps_i <= m,
            prev_lps < lps_i,
            is_border(s, lps_i as int, prev_lps as int),
            forall|i: int| 0 <= i < lps_i ==> is_border(s, i + 1, #[trigger] lps@[i] as int),
            forall|mm: int, k: int| 1 <= mm <= lps_i && #[trigger] is_border(s, mm, k) ==> k <= lps@[mm - 1],
            lps_i < m ==> borders_at_most(s, lps_i + 1, prev_lps + 1),
        decreases 2 * (m - lps_i) + prev_lps,
    {
        if needle[lps_i] == needle[prev_lps] {
            proof {
                lemma_border_extend(s, lps_i as int, prev_lps as int);
            }
            lps.set(lps_i, prev_lps + 1);
            prev_lps = prev_lps + 1;
            lps_i = lps_i + 1;
            proof {
                if lps_i < m {
                    assert forall|k: int| #[trigger] is_border(s, lps_i + 1, k) implies k <= prev_lps + 1 by {
                        if k >= 1 {
                            lemma_border_shrink(s, lps_i as int, k);
                            assert(k - 1 <= lps@[lps_i - 1]);
                        }
                    }
                }
            }
        } else {
            if prev_lps == 0 {
                proof {
                    assert forall|k: int| #[trigger] is_border(s, lps_i + 1, k) implies k <= 0 by {
                        if k == 1 {
                            assert(s[0] == s[lps_i + 1 - 1 + 0]);
                        }
                    }
                }
                lps.set(lps_i, 0);
                lps_i = lps_i + 1;
                proof {
                    if lps_i < m {
                        assert forall|k: int| #[trigger] is_border(s, lps_i + 1, k) implies k <= prev_lps + 1 by {
                            if k >= 1 {
                                lemma_border_shrink(s, lps_i as int, k);
                                assert(k - 1 <= lps@[lps_i - 1]);
                            }
                        }
                    }
                }
            } else {
                let next = lps[prev_lps - 1];
                proof {
                    lemma_border_trans(s, lps_i as int, prev_lps as int, next as int);
                    assert forall|k: int| #[trigger] is_border(s, lps_i + 1, k) implies k <= next + 1 by {
                        if k >= 1 {
                            if k == prev_lps + 1 {
                                assert(s[k - 1] == s[lps_i + 1 - k + (k - 1)]);
                            }
                            lemma_border_shrink(s, lps_i as int, k);
                            if k - 1 < prev_lps {
                                lemma_border_of_border(s, lps_i as int, prev_lps as int, k - 1);
                                assert(k - 1 <= lps@[prev_lps - 1]);
                            }
                        }
                    }
                }
                prev_lps = next;
            }
        }
    }
    lps
}


/// `find_string` on the characters of a non empty needle.
fn find_chars(haystack: &Vec<char>, needle: &Vec<char>) -> (occurances: Vec<usize>)
    requires
        needle@.len() > 0,
    ensures
        is_match_list(haystack@, needle@, occurances@),
{
    let ghost hay = haystack@;
    let ghost nd = needle@;
    let mut h: usize = 0;
    let mut n: usize = 0;
    let mut occurances: Vec<usize> = Vec::new();
    let lps = lps_of_chars(needle);
    let ghost mut start: int = 0;
    while h < haystack.len()
        invariant
            hay == haystack@,
            nd == needle@,
            nd.len() > 0 ==> is_lps(nd, lps@),
            hay.len() > 0 ==> nd.len() > 0,
            n < nd.len() || nd.len() == 0,
            start <= h - n,
            h <= hay.len(),
            partial_match(hay, nd, h - n, h as int),
            forall|p: int| start <= p < h - n ==> !#[trigger] occurs(hay, nd, p),
            scanned(hay, nd, occurances@, start),
            nd.len() == 0 ==> occurances@.len() == 0,
        decreases 2 * (hay.len() - h) + n,
    {
        if haystack[h] == needle[n] {
            h = h + 1;
            n = n + 1;
            proof {
                assert forall|p: int| start <= p < h - n implies !#[trigger] occurs(hay, nd, p) by {}
            }
        } else {
            if n == 0 {
                proof {
                    assert forall|p: int| start <= p < h + 1 implies !#[trigger] occurs(hay, nd, p) by {
                        if p == h && occurs(hay, nd, p) {
                            assert(hay[p + 0] == nd[0]);
                        }
                    }
                }
                h = h + 1;
            } else {
                let next = lps[n - 1];
                proof {
                    assert(is_border(nd, n as int, next as int));
                    assert forall|p: int| start <= p < h - next implies !#[trigger] occurs(hay, nd, p) by {
                        if p >= h - n && occurs(hay, nd, p) {
                            let b = h - p;
                            if b == n {
                                assert(hay[p + n] == nd[n as int]);
                            } else {
                                assert(is_border(nd, n as int, b)) by {
                                    assert forall|j: int| 0 <= j < b implies #[trigger] nd[j] == nd[n - b + j] by {
                                        assert(hay[p + j] == nd[j]);
                                        assert(hay[h - n + (n - b + j)] == nd[n - b + j]);
                                    }
                                }
                                assert(b <= lps@[n - 1]);
                            }
                        }
                    }
                    assert(partial_match(hay, nd, h - next, h as int)) by {
                        assert forall|j: int| h - next <= j < h implies #[trigger] hay[j] == nd[j - (h - next)] by {
                            assert(nd[j - (h - next)] == nd[n - next + (j - (h - next))]);
                        }
                    }
                }
                n = next;
            }
        }
        if n == needle.len() {
            let ghost p = h - n;
            proof {
                assert(occurs(hay, nd, p as int)) by {
                    assert forall|j: int| 0 <= j < nd.len() implies #[trigger] hay[p + j] == nd[j] by {
                        assert(hay[p + j] == nd[(p + j) - p]);
                    }
                }
            }
            let ghost old_out = occurances@;
            occurances.push(h - needle.len());
            proof {
                let out = occurances@;
                assert forall|q: int| #[trigger] occurs(hay, nd, q) && q < h implies exists|i: int| 0 <= i < out.len() && (out[i] == q || out[i] < q < out[i] + nd.len()) by {
                    if q < start {
                        let i = choose|i: int| 0 <= i < old_out.len() && (old_out[i] == q || old_out[i] < q < old_out[i] + nd.len());
                        assert(out[i] == old_out[i]);
                    } else if q < p {
                    } else {
                        assert(out[out.len() - 1] == p);
                    }
                }
                start = h as int;
            }
            n = 0;
        }
    }
    proof {
        if nd.len() > 0 {
            assert forall|p: int| #[trigger] occurs(hay, nd, p) implies exists|i: int| 0 <= i < occurances@.len() && (occurances@[i] == p || occurances@[i] < p < occurances@[i] + nd.len()) by {
                if p >= start {
                    assert(p < h - n);
                }
            }
        }
    }
    occurances
}



/// For each prefix of `needle`, the length of its longest proper border,
/// counted in characters; `[0]` for an empty needle.
pub fn build_lps_list(needle: &str) -> (lps: Vec<usize>)
    ensures
        needle@.len() == 0 ==> lps@ == seq![0usize],
        needle@.len() > 0 ==> is_lps(needle@, lps@),
{
    let chars = chars_of(needle);
    lps_of_chars(&chars)
}

/// The character positions at which `substring` occurs in `string`, as a
/// scan from the left takes them: an occurrence that overlaps one taken is
/// skipped. An empty `substring` is found after every character.
pub fn find_string(string: &str, substring: &str) -> (occurances: Vec<usize>)
    ensures
        substring@.len() > 0 ==> is_match_list(string@, substring@, occurances@),
        substring@.len() == 0 ==> occurances@ == Seq::new(string@.len(), |i: int| (i + 1) as usize),
{
    let hay = chars_of(string);
    let needle = chars_of(substring);
    if needle.len() == 0 {
        let mut occurances: Vec<usize> = Vec::new();
        let mut h: usize = 0;
        while h < hay.len()
            invariant
                h <= hay@.len(),
                hay@ == string@,
                occurances@ == Seq::new(h as nat, |i: int| (i + 1) as usize),
            decreases hay@.len() - h,
        {
            h = h + 1;
            occurances.push(h);
            proof {
                assert(occurances@ =~= Seq::new(h as nat, |i: int| (i + 1) as usize));
            }
        }
        return occurances;
    }
    find_chars(&hay, &needle)
}


proof fn lemma_match_lists_agree_below<A>(hay: Seq<A>, nd: Seq<A>, a: Seq<usize>, b: Seq<usize>, i: int)
    requires
        nd.len() > 0,
        is_match_list(hay, nd, a),
        is_match_list(hay, nd, b),
        0 <= i <= a.len(),
        i <= b.len(),
    ensures
        forall|k: int| 0 <= k < i ==> a[k] == b[k],
    decreases i,
{
    if i > 0 {
        lemma_match_lists_agree_below(hay, nd, a, b, i - 1);
        let k = i - 1;
        lemma_match_list_step(hay, nd, a, b, k);
        lemma_match_list_step(hay, nd, b, a, k);
    }
}

proof fn lemma_match_list_step<A>(hay: Seq<A>, nd: Seq<A>, a: Seq<usize>, b: Seq<usize>, k: int)
    requires
        nd.len() > 0,
        is_match_list(hay, nd, a),
        is_match_list(hay, nd, b),
        0 <= k < a.len(),
        k <= b.len(),
        forall|j: int| 0 <= j < k ==> a[j] == b[j],
    ensures
        k < b.len() && b[k] <= a[k],
{
    assert(occurs(hay, nd, a[k] as int));
    let j = choose|j: int| 0 <= j < b.len() && (b[j] == a[k] || b[j] < a[k] < b[j] + nd.len());
    if j < k {
        assert(a[j] == b[j]);
        assert(a[j] + nd.len() <= a[k]);
    } else if j > k {
        assert(b[k] < b[j]);
    }
}

/// A list of matches is the greedy scan from the left: empty exactly when
/// the needle does not occur, its first element the first occurrence, each
/// next one the first occurrence at or after the end of the one before, and
/// no occurrence at or after the end of the last.
pub proof fn lemma_match_list_greedy<A>(hay: Seq<A>, nd: Seq<A>, out: Seq<usize>)
    requires
        nd.len() > 0,
        is_match_list(hay, nd, out),
    ensures
        out.len() == 0 <==> forall|p: int| !#[trigger] occurs(hay, nd, p),
        out.len() > 0 ==> forall|p: int| #[trigger] occurs(hay, nd, p) ==> out[0] <= p,
        forall|k: int, p: int|
            #![trigger occurs(hay, nd, p), out[k]]
            0 <= k < out.len() - 1 && occurs(hay, nd, p) && p >= out[k] + nd.len() ==> out[k + 1] <= p,
        out.len() > 0 ==> forall|p: int| #[trigger] occurs(hay, nd, p) ==> p < out[out.len() - 1] + nd.len(),
{
    if out.len() > 0 {
        assert(occurs(hay, nd, out[0] as int));
        assert forall|p: int| #[trigger] occurs(hay, nd, p) implies out[0] <= p by {
            let i = choose|i: int| 0 <= i < out.len() && (out[i] == p || out[i] < p < out[i] + nd.len());
            if i > 0 {
                assert(out[0] < out[i]);
            }
        }
        let last = out.len() - 1;
        assert forall|p: int| #[trigger] occurs(hay, nd, p) implies p < out[last] + nd.len() by {
            let i = choose|i: int| 0 <= i < out.len() && (out[i] == p || out[i] < p < out[i] + nd.len());
            if i < last {
                assert(out[i] < out[last]);
            }
        }
    } else {
        assert forall|p: int| !#[trigger] occurs(hay, nd, p) by {
            if occurs(hay, nd, p) {
                let i = choose|i: int| 0 <= i < out.len() && (out[i] == p || out[i] < p < out[i] + nd.len());
            }
        }
    }
    assert forall|k: int, p: int|
        #![trigger occurs(hay, nd, p), out[k]]
        0 <= k < out.len() - 1 && occurs(hay, nd, p) && p >= out[k] + nd.len() implies out[k + 1] <= p by {
        let i = choose|i: int| 0 <= i < out.len() && (out[i] == p || out[i] < p < out[i] + nd.len());
        if i < k {
            assert(out[i] < out[k]);
        } else if i > k + 1 {
            assert(out[k + 1] < out[i]);
        }
    }
}

/// The occurrences that a scan from the left takes are determined by the
/// text and the needle: two lists that both meet `is_match_list` are
/// equal.
pub proof fn lemma_match_list_unique<A>(hay: Seq<A>, nd: Seq<A>, a: Seq<usize>, b: Seq<usize>)
    requires
        nd.len() > 0,
        is_match_list(hay, nd, a),
        is_match_list(hay, nd, b),
    ensures
        a == b,
{
    if a.len() > b.len() {
        lemma_match_lists_agree_below(hay, nd, a, b, b.len() as int);
        lemma_match_list_step(hay, nd, a, b, b.len() as int);
    } else if b.len() > a.len() {
        lemma_match_lists_agree_below(hay, nd, b, a, a.len() as int);
        lemma_match_list_step(hay, nd, b, a, a.len() as int);
    } else {
        lemma_match_lists_agree_below(hay, nd, a, b, a.len() as int);
        assert(a =~= b);
    }
}


/// Where a match was found in a text: the line, and the character offset
/// in that line.
#[derive(Clone, Copy, Debug, PartialEq, Eq, Structural)]
pub struct TextPosition {
    pub line_number: usize,
    pub line_offset: usize,
}

/// The text of line `k` of `s`, without its line ending: a line feed, or a
/// carriage return and a line feed.
pub open spec fn line_text(s: Seq<char>, k: nat) -> Seq<char> {
    let b = line_start(s, k);
    let e = next_newline(s, b);
    if e < s.len() && e > b && s[e - 1] == '\r' {
        s.subrange(b, e - 1)
    } else {
        s.subrange(b, e)
    }
}

/// The first position at or after `p` where `needle` occurs in `line`.
pub open spec fn first_match_from(line: Seq<char>, needle: Seq<char>, p: int) -> Option<int>
    decreases line.len() - p,
{
    if p < 0 || p + needle.len() > line.len() {
        None
    } else if occurs(line, needle, p) {
        Some(p)
    } else {
        first_match_from(line, needle, p + 1)
    }
}

/// The first match of `needle` in each of the first `k` lines of `s` that
/// holds one, in line order.
pub open spec fn positions_upto(s: Seq<char>, needle: Seq<char>, k: nat) -> Seq<TextPosition>
    decreases k,
{
    if k == 0 {
        Seq::empty()
    } else {
        let before = positions_upto(s, needle, (k - 1) as nat);
        if line_start(s, (k - 1) as nat) < s.len() {
            match first_match_from(line_text(s, (k - 1) as nat), needle, 0) {
                Some(p) => before.push(TextPosition { line_number: (k - 1) as usize, line_offset: p as usize }),
                None => before,
            }
        } else {
            before
        }
    }
}

proof fn lemma_positions_stop(s: Seq<char>, needle: Seq<char>, k: nat, j: nat)
    requires
        k <= j,
        line_start(s, k) >= s.len(),
    ensures
        positions_upto(s, needle, j) == positions_upto(s, needle, k),
    decreases j,
{
    if j > k {
        lemma_positions_stop(s, needle, k, (j - 1) as nat);
        lemma_line_start(s, (j - 1) as nat);
    }
}

/// The first position of `needle` in `text` from `from` to `to`, counted
/// from `from`.
fn first_match(text: &Vec<char>, from: usize, to: usize, needle: &Vec<char>) -> (r: Option<usize>)
    requires
        from <= to <= text@.len(),
    ensures
        r == (match first_match_from(text@.subrange(from as int, to as int), needle@, 0) {
            Some(p) => Some(p as usize),
            None => None::<usize>,
        }),
{
    let ghost line = text@.subrange(from as int, to as int);
    let m = needle.len();
    if m > to - from {
        return None;
    }
    let room = to - from - m;
    let mut p: usize = 0;
    while p <= room
        invariant
            room == to - from - m,
            from <= to <= text@.len(),
            line == text@.subrange(from as int, to as int),
            m == needle@.len(),
            first_match_from(line, needle@, 0) == first_match_from(line, needle@, p as int),
        decreases to - from - p,
    {
        let mut j: usize = 0;
        while j < m && text[from + p + j] == needle[j]
            invariant
                from <= to <= text@.len(),
                line == text@.subrange(from as int, to as int),
                m == needle@.len(),
                p <= room,
                room == to - from - m,
                j <= m,
                forall|i: int| 0 <= i < j ==> line[p + i] == needle@[i],
            decreases m - j,
        {
            j = j + 1;
        }
        if j == m {
            proof {
                assert(occurs(line, needle@, p as int));
            }
            return Some(p);
        }
        proof {
            assert(!occurs(line, needle@, p as int)) by {
                assert(line[p + j] != needle@[j as int]);
            }
        }
        p = p + 1;
    }
    None
}

/// The first match of `substring` in each line of `string` that holds one,
/// as the line and the character offset in it; none for an empty
/// `substring`.
pub fn find_string_position(string: &str, substring: &str) -> (occurances: Vec<TextPosition>)
    ensures
        substring@.len() == 0 ==> occurances@.len() == 0,
        substring@.len() > 0 ==> occurances@ == positions_upto(string@, substring@, (string@.len() + 1) as nat),
{
    if substring.unicode_len() == 0 {
        return Vec::new();
    }
    let ghost s = string@;
    let text = chars_of(string);
    let needle = chars_of(substring);
    let len = text.len();
    let mut occurances: Vec<TextPosition> = Vec::new();
    let mut line: usize = 0;
    let mut k: usize = 0;
    while line < len
        invariant
            text@ == s,
            needle@ == substring@,
            len == s.len(),
            line == line_start(s, k as nat),
            k <= line <= len,
            occurances@ == positions_upto(s, needle@, k as nat),
        decreases len - line,
    {
        proof {
            lemma_next_newline(s, line as int);
        }
        let mut e = line;
        while e < len && text[e] != '\n'
            invariant
                text@ == s,
                len == s.len(),
                line <= e <= len,
                next_newline(s, line as int) == next_newline(s, e as int),
            decreases len - e,
        {
            e = e + 1;
        }
        let end = if e < len && e > line && text[e - 1] == '\r' {
            e - 1
        } else {
            e
        };
        let found = first_match(&text, line, end, &needle);
        match found {
            Some(p) => {
                occurances.push(TextPosition { line_number: k, line_offset: p });
            },
            None => {},
        }
        line = if e < len {
            e + 1
        } else {
            len
        };
        k = k + 1;
    }
    proof {
        lemma_positions_stop(s, needle@, k as nat, (s.len() + 1) as nat);
    }
    occurances
}

} // verus!
