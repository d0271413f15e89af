//! What holds of the balanced prefix whatever the text: text that follows it
//! has no say in it, it is balanced itself, and nothing shorter is.

use crate::scanner::{
    balanced_prefix, balanced_prefix_len, comment_end, is_close_bracket, is_open_bracket,
    is_quote, lemma_comment_end_bounds, lemma_literal_end_bounds, lemma_step_advances,
    literal_end, scan_from, scan_step, slash_opens_regex, ScanState,
};
use vstd::prelude::*;

verus! {

proof fn lemma_literal_end_extends(a: Seq<u8>, t: Seq<u8>, i: int, delim: u8)
    requires
        literal_end(a, i, delim) is Some,
    ensures
        literal_end(a + t, i, delim) == literal_end(a, i, delim),
    decreases a.len() + 1 - i,
{
    if 0 <= i < a.len() {
        assert((a + t)[i] == a[i]);
        if a[i] == delim {
        } else if a[i] == 0x5c {
            lemma_literal_end_extends(a, t, i + 2, delim);
        } else {
            lemma_literal_end_extends(a, t, i + 1, delim);
        }
    }
}

proof fn lemma_comment_end_extends(a: Seq<u8>, t: Seq<u8>, i: int)
    requires
        comment_end(a, i) is Some,
    ensures
        comment_end(a + t, i) == comment_end(a, i),
    decreases a.len() - i,
{
    if 0 <= i && i + 1 < a.len() {
        assert((a + t)[i] == a[i]);
        assert((a + t)[i + 1] == a[i + 1]);
        if a[i] == 0x2a && a[i + 1] == 0x2f {
        } else {
            lemma_comment_end_extends(a, t, i + 1);
        }
    }
}

proof fn lemma_literal_end_truncates(s: Seq<u8>, m: int, i: int, delim: u8)
    requires
        literal_end(s, i, delim) matches Some(j) && j <= m <= s.len(),
    ensures
        literal_end(s.subrange(0, m), i, delim) == literal_end(s, i, delim),
    decreases s.len() + 1 - i,
{
    if 0 <= i < s.len() {
        if s[i] == delim {
        } else if s[i] == 0x5c {
            lemma_literal_end_bounds(s, i + 2, delim);
            lemma_literal_end_truncates(s, m, i + 2, delim);
        } else {
            lemma_literal_end_bounds(s, i + 1, delim);
            lemma_literal_end_truncates(s, m, i + 1, delim);
        }
    }
}

proof fn lemma_comment_end_truncates(s: Seq<u8>, m: int, i: int)
    requires
        comment_end(s, i) matches Some(j) && j <= m <= s.len(),
    ensures
        comment_end(s.subrange(0, m), i) == comment_end(s, i),
    decreases s.len() - i,
{
    if 0 <= i && i + 1 < s.len() {
        if s[i] == 0x2a && s[i + 1] == 0x2f {
        } else {
            lemma_comment_end_bounds(s, i + 1);
            lemma_comment_end_truncates(s, m, i + 1);
        }
    }
}

/// A scan that succeeds ends within the text, no earlier than it started,
/// and, where a bracket was open, right after a closing bracket.
pub proof fn lemma_scan_bounds(s: Seq<u8>, st: ScanState)
    requires
        0 <= st.pos <= s.len(),
    ensures
        scan_from(s, st) matches Some(k) ==> {
            &&& st.pos <= k <= s.len()
            &&& st.depth > 0 ==> st.pos < k && is_close_bracket(s[k - 1])
        },
    decreases s.len() - st.pos,
{
    if st.depth > 0 && st.pos < s.len() {
        lemma_step_advances(s, st);
        match scan_step(s, st) {
            Some(next) => {
                lemma_scan_bounds(s, next);
            },
            None => {},
        }
    }
}

proof fn lemma_scan_extends(a: Seq<u8>, t: Seq<u8>, st: ScanState)
    requires
        0 <= st.pos,
        scan_from(a, st) is Some,
    ensures
        scan_from(a + t, st) == scan_from(a, st),
    decreases a.len() - st.pos,
{
    if st.depth > 0 {
        let p = st.pos;
        let b = a[p];
        assert((a + t)[p] == b);
        lemma_step_advances(a, st);
        let next = scan_step(a, st)->0;
        if is_open_bracket(b) || is_close_bracket(b) {
        } else if is_quote(b) {
            lemma_literal_end_extends(a, t, p + 1, b);
        } else if b == 0x2f && p + 1 < a.len() && a[p + 1] == 0x2a {
            assert((a + t)[p + 1] == a[p + 1]);
            lemma_comment_end_extends(a, t, p + 2);
        } else if b == 0x2f && p + 1 >= a.len() {
            // a slash that ends the text: the scan cannot succeed from here
            if slash_opens_regex(st.last) {
            } else {
                assert(scan_from(a, next) is None);
            }
        } else if b == 0x2f && slash_opens_regex(st.last) {
            assert((a + t)[p + 1] == a[p + 1]);
            lemma_literal_end_extends(a, t, p + 1, 0x2f);
        } else {
            if p + 1 < a.len() {
                assert((a + t)[p + 1] == a[p + 1]);
            }
        }
        assert(scan_step(a + t, st) == Some(next));
        lemma_scan_extends(a, t, next);
    }
}

proof fn lemma_scan_truncates(s: Seq<u8>, m: int, st: ScanState)
    requires
        0 <= st.pos <= s.len(),
        scan_from(s, st) matches Some(k) && k <= m <= s.len(),
    ensures
        scan_from(s.subrange(0, m), st) == scan_from(s, st),
    decreases s.len() - st.pos,
{
    if st.depth > 0 {
        let p = st.pos;
        let b = s[p];
        let cut = s.subrange(0, m);
        lemma_step_advances(s, st);
        let next = scan_step(s, st)->0;
        lemma_scan_bounds(s, next);
        assert(cut[p] == b);
        if is_open_bracket(b) || is_close_bracket(b) {
        } else if is_quote(b) {
            lemma_literal_end_truncates(s, m, p + 1, b);
        } else if b == 0x2f && p + 1 < s.len() && s[p + 1] == 0x2a {
            lemma_comment_end_bounds(s, p + 2);
            lemma_comment_end_truncates(s, m, p + 2);
        } else if b == 0x2f && slash_opens_regex(st.last) {
            lemma_literal_end_truncates(s, m, p + 1, 0x2f);
        } else {
        }
        assert(scan_step(cut, st) == Some(next));
        lemma_scan_truncates(s, m, next);
    }
}

/// Where a text has a balanced prefix, it keeps that prefix whatever is put
/// after the text.
pub proof fn lemma_balanced_prefix_ignores_tail(text: Seq<u8>, tail: Seq<u8>)
    requires
        balanced_prefix(text) is Some,
    ensures
        balanced_prefix(text + tail) == balanced_prefix(text),
{
    let start = ScanState { pos: 1, depth: 1, last: text[0] };
    assert((text + tail)[0] == text[0]);
    lemma_scan_extends(text, tail, start);
    lemma_scan_bounds(text, start);
    let n = balanced_prefix_len(text)->0;
    assert((text + tail).subrange(0, n) =~= text.subrange(0, n));
}

/// A text that is balanced as a whole is the balanced prefix of itself
/// followed by anything.
pub proof fn lemma_balanced_text_is_cut_out(text: Seq<u8>, tail: Seq<u8>)
    requires
        balanced_prefix(text) == Some(text),
    ensures
        balanced_prefix(text + tail) == Some(text),
{
    lemma_balanced_prefix_ignores_tail(text, tail);
}

/// The balanced prefix starts with an opening bracket, ends with a closing
/// one, and is a prefix of the text.
pub proof fn lemma_balanced_prefix_shape(s: Seq<u8>)
    ensures
        balanced_prefix_len(s) matches Some(n) ==> {
            &&& 2 <= n <= s.len()
            &&& is_open_bracket(s[0])
            &&& is_close_bracket(s[n - 1])
            &&& balanced_prefix(s) == Some(s.subrange(0, n))
        },
{
    if s.len() > 0 && is_open_bracket(s[0]) {
        lemma_scan_bounds(s, ScanState { pos: 1, depth: 1, last: s[0] });
    }
}

/// The balanced prefix is balanced as a whole: cutting it again gives it
/// back.
pub proof fn lemma_balanced_prefix_is_balanced(s: Seq<u8>)
    ensures
        balanced_prefix(s) matches Some(p) ==> balanced_prefix(p) == Some(p),
{
    if balanced_prefix(s) is Some {
        let n = balanced_prefix_len(s)->0;
        let p = s.subrange(0, n);
        lemma_balanced_prefix_shape(s);
        lemma_scan_truncates(s, n, ScanState { pos: 1, depth: 1, last: s[0] });
        assert(p.subrange(0, n) =~= p);
    }
}

/// The balanced prefix is the shortest one: no shorter prefix of the text is
/// balanced as a whole, nor has a balanced prefix at all.
pub proof fn lemma_balanced_prefix_is_shortest(s: Seq<u8>, m: int)
    requires
        balanced_prefix_len(s) matches Some(n) && 0 <= m < n,
    ensures
        balanced_prefix(s.subrange(0, m)) is None,
{
    lemma_balanced_prefix_shape(s);
    let p = s.subrange(0, m);
    if balanced_prefix(p) is Some {
        lemma_balanced_prefix_shape(p);
        lemma_balanced_prefix_ignores_tail(p, s.subrange(m, s.len() as int));
        assert(p + s.subrange(m, s.len() as int) =~= s);
        let n = balanced_prefix_len(s)->0;
        let k = balanced_prefix_len(p)->0;
        assert(s.subrange(0, n).len() == n);
        assert(p.subrange(0, k).len() == k);
    }
}

/// A string literal is skipped whatever it holds: the scan goes on after
/// its closing quote with the brackets that were open before it.
pub proof fn lemma_string_is_skipped(s: Seq<u8>, st: ScanState)
    requires
        st.depth > 0,
        0 <= st.pos < s.len(),
        is_quote(s[st.pos]),
    ensures
        scan_from(s, st) == (match literal_end(s, st.pos + 1, s[st.pos]) {
            Some(end) => scan_from(s, ScanState { pos: end, depth: st.depth, last: st.last }),
            None => None,
        }),
{
}

/// A block comment is skipped whatever it holds.
pub proof fn lemma_comment_is_skipped(s: Seq<u8>, st: ScanState)
    requires
        st.depth > 0,
        0 <= st.pos,
        st.pos + 1 < s.len(),
        s[st.pos] == 0x2f,
        s[st.pos + 1] == 0x2a,
    ensures
        scan_from(s, st) == (match comment_end(s, st.pos + 2) {
            Some(end) => scan_from(s, ScanState { pos: end, depth: st.depth, last: st.last }),
            None => None,
        }),
{
}

/// A regular-expression literal is skipped whatever it holds: a slash that
/// follows neither a letter nor a digit, and no `*`, opens one.
pub proof fn lemma_regex_is_skipped(s: Seq<u8>, st: ScanState)
    requires
        st.depth > 0,
        0 <= st.pos < s.len(),
        s[st.pos] == 0x2f,
        !(st.pos + 1 < s.len() && s[st.pos + 1] == 0x2a),
        slash_opens_regex(st.last),
    ensures
        scan_from(s, st) == (match literal_end(s, st.pos + 1, 0x2f) {
            Some(end) => scan_from(s, ScanState { pos: end, depth: st.depth, last: st.last }),
            None => None,
        }),
{
}

/// In a literal, a backslash hides the byte after it: a delimiter that
/// follows a backslash does not end the literal.
pub proof fn lemma_escaped_delimiter_does_not_end(s: Seq<u8>, i: int, delim: u8)
    requires
        0 <= i,
        i + 1 < s.len(),
        s[i] == 0x5c,
        delim != 0x5c,
    ensures
        literal_end(s, i, delim) == literal_end(s, i + 2, delim),
{
}

/// A text that does not start with an opening bracket has no balanced
/// prefix.
pub proof fn lemma_no_prefix_without_opening_bracket(s: Seq<u8>)
    requires
        s.len() == 0 || !is_open_bracket(s[0]),
    ensures
        balanced_prefix(s) is None,
{
}

/// A text in which no closing bracket occurs after the first byte has no
/// balanced prefix.
pub proof fn lemma_no_prefix_without_closing_bracket(s: Seq<u8>)
    requires
        forall|i: int| 1 <= i < s.len() ==> !is_close_bracket(#[trigger] s[i]),
    ensures
        balanced_prefix(s) is None,
{
    lemma_balanced_prefix_shape(s);
}

} // verus!
