//! Balanced-source extraction: the shortest prefix of a script text that
//! starts at an opening bracket and closes every bracket it opens, with
//! string literals, block comments and regular-expression literals skipped.
//!
//! A slash opens a regular-expression literal unless the last significant
//! byte before it is a letter or a digit, which makes it a division. The
//! significant bytes are those outside literals and comments that are no
//! whitespace.

use crate::text::{lemma_boundary_after_ascii, slice_bytes};
use vstd::prelude::*;
use vstd::string::*;
use vstd::utf8::*;

verus! {

/// `{`, `[` or `(`.
pub open spec fn is_open_bracket(b: u8) -> bool {
    b == 0x7b || b == 0x5b || b == 0x28
}

/// `}`, `]` or `)`.
pub open spec fn is_close_bracket(b: u8) -> bool {
    b == 0x7d || b == 0x5d || b == 0x29
}

/// A double quote, a single quote or a back quote.
pub open spec fn is_quote(b: u8) -> bool {
    b == 0x22 || b == 0x27 || b == 0x60
}

/// Space, tab, line feed, form feed or carriage return.
pub open spec fn is_space(b: u8) -> bool {
    b == 0x20 || b == 0x09 || b == 0x0a || b == 0x0c || b == 0x0d
}

/// An ASCII letter or digit.
pub open spec fn is_alphanumeric(b: u8) -> bool {
    (0x30 <= b <= 0x39) || (0x41 <= b <= 0x5a) || (0x61 <= b <= 0x7a)
}

/// Whether a `/` opens a regular-expression literal, given the last
/// significant byte before it: after a letter or a digit the slash is a
/// division, after anything else it opens a literal.
pub open spec fn slash_opens_regex(last: u8) -> bool {
    !is_alphanumeric(last)
}

/// The offset just past the delimiter that ends a literal whose body starts
/// at `i`. A backslash hides the byte that follows it. `None` when the text
/// ends first.
pub open spec fn literal_end(s: Seq<u8>, i: int, delim: u8) -> Option<int>
    decreases s.len() + 1 - i,
{
    if i < 0 || i >= s.len() {
        None
    } else if s[i] == delim {
        Some(i + 1)
    } else if s[i] == 0x5c {
        literal_end(s, i + 2, delim)
    } else {
        literal_end(s, i + 1, delim)
    }
}

/// The offset just past the `*/` that ends a block comment whose body starts
/// at `i`. `None` when the text ends first.
pub open spec fn comment_end(s: Seq<u8>, i: int) -> Option<int>
    decreases s.len() - i,
{
    if i < 0 || i + 1 >= s.len() {
        None
    } else if s[i] == 0x2a && s[i + 1] == 0x2f {
        Some(i + 2)
    } else {
        comment_end(s, i + 1)
    }
}

/// The scanner's state between two tokens.
pub struct ScanState {
    /// Offset of the next byte to read.
    pub pos: int,
    /// Number of brackets that are open.
    pub depth: int,
    /// The last significant byte: the last byte before `pos` that is no
    /// whitespace and stands outside literals and comments.
    pub last: u8,
}

/// One token's worth of scanning from `st`, where a byte is left to read.
/// `None` when a literal or comment that starts here never ends.
pub open spec fn scan_step(s: Seq<u8>, st: ScanState) -> Option<ScanState>
    recommends
        0 <= st.pos < s.len(),
{
    let b = s[st.pos];
    if is_open_bracket(b) {
        Some(ScanState { pos: st.pos + 1, depth: st.depth + 1, last: b })
    } else if is_close_bracket(b) {
        Some(ScanState { pos: st.pos + 1, depth: st.depth - 1, last: b })
    } else if is_quote(b) {
        match literal_end(s, st.pos + 1, b) {
            Some(j) => Some(ScanState { pos: j, depth: st.depth, last: st.last }),
            None => None,
        }
    } else if b == 0x2f && st.pos + 1 < s.len() && s[st.pos + 1] == 0x2a {
        match comment_end(s, st.pos + 2) {
            Some(j) => Some(ScanState { pos: j, depth: st.depth, last: st.last }),
            None => None,
        }
    } else if b == 0x2f && slash_opens_regex(st.last) {
        match literal_end(s, st.pos + 1, 0x2f) {
            Some(j) => Some(ScanState { pos: j, depth: st.depth, last: st.last }),
            None => None,
        }
    } else if is_space(b) {
        Some(ScanState { pos: st.pos + 1, depth: st.depth, last: st.last })
    } else {
        Some(ScanState { pos: st.pos + 1, depth: st.depth, last: b })
    }
}

/// The offset at which the depth first returns to zero when scanning on from
/// `st`. `None` when the text ends before that.
pub open spec fn scan_from(s: Seq<u8>, st: ScanState) -> Option<int>
    decreases s.len() - st.pos,
{
    if st.depth <= 0 {
        Some(st.pos)
    } else if st.pos < 0 || st.pos >= s.len() {
        None
    } else {
        match scan_step(s, st) {
            Some(next) => {
                proof {
                    lemma_step_advances(s, st);
                }
                scan_from(s, next)
            },
            None => None,
        }
    }
}

/// The length of the balanced prefix of `s`: `s` starts with an opening
/// bracket, and this is the offset just past the bracket that closes it.
/// `None` when `s` does not start with an opening bracket or the bracket is
/// never closed.
pub open spec fn balanced_prefix_len(s: Seq<u8>) -> Option<int> {
    if s.len() > 0 && is_open_bracket(s[0]) {
        scan_from(s, ScanState { pos: 1, depth: 1, last: s[0] })
    } else {
        None
    }
}

/// The balanced prefix of `s` itself, where there is one.
pub open spec fn balanced_prefix(s: Seq<u8>) -> Option<Seq<u8>> {
    match balanced_prefix_len(s) {
        Some(n) => Some(s.subrange(0, n)),
        None => None,
    }
}

/// A literal ends after where its body starts, and within the text.
pub proof fn lemma_literal_end_bounds(s: Seq<u8>, i: int, delim: u8)
    ensures
        literal_end(s, i, delim) matches Some(j) ==> i < j <= s.len() && s[j - 1] == delim,
    decreases s.len() + 1 - i,
{
    if i < 0 || i >= s.len() {
    } else if s[i] == delim {
    } else if s[i] == 0x5c {
        lemma_literal_end_bounds(s, i + 2, delim);
    } else {
        lemma_literal_end_bounds(s, i + 1, delim);
    }
}

/// A comment ends after where its body starts, within the text, on a `/`.
pub proof fn lemma_comment_end_bounds(s: Seq<u8>, i: int)
    ensures
        comment_end(s, i) matches Some(j) ==> i + 2 <= j <= s.len() && s[j - 1] == 0x2f,
    decreases s.len() - i,
{
    if i < 0 || i + 1 >= s.len() {
    } else if s[i] == 0x2a && s[i + 1] == 0x2f {
    } else {
        lemma_comment_end_bounds(s, i + 1);
    }
}

/// A step moves forward, stays within the text, changes the depth by at most
/// one, and stops right after an ASCII byte.
pub proof fn lemma_step_advances(s: Seq<u8>, st: ScanState)
    requires
        0 <= st.pos < s.len(),
    ensures
        scan_step(s, st) matches Some(next) ==> {
            &&& st.pos < next.pos <= s.len()
            &&& st.depth - 1 <= next.depth <= st.depth + 1
            &&& s[next.pos - 1] <= 0x7f || (next.pos == st.pos + 1 && next.depth == st.depth)
            &&& next.depth < st.depth ==> is_close_bracket(s[next.pos - 1])
        },
{
    let b = s[st.pos];
    if is_quote(b) {
        lemma_literal_end_bounds(s, st.pos + 1, b);
    }
    lemma_comment_end_bounds(s, st.pos + 2);
    lemma_literal_end_bounds(s, st.pos + 1, 0x2f);
}

fn opens_bracket(b: u8) -> (r: bool)
    ensures
        r == is_open_bracket(b),
{
    b == 0x7b || b == 0x5b || b == 0x28
}

fn closes_bracket(b: u8) -> (r: bool)
    ensures
        r == is_close_bracket(b),
{
    b == 0x7d || b == 0x5d || b == 0x29
}

fn quotes(b: u8) -> (r: bool)
    ensures
        r == is_quote(b),
{
    b == 0x22 || b == 0x27 || b == 0x60
}

fn space(b: u8) -> (r: bool)
    ensures
        r == is_space(b),
{
    b == 0x20 || b == 0x09 || b == 0x0a || b == 0x0c || b == 0x0d
}

fn alphanumeric(b: u8) -> (r: bool)
    ensures
        r == is_alphanumeric(b),
{
    (0x30 <= b && b <= 0x39) || (0x41 <= b && b <= 0x5a) || (0x61 <= b && b <= 0x7a)
}

/// Skips a literal's body from `start` to just past its closing `delim`.
fn skip_literal(bytes: &[u8], start: usize, delim: u8) -> (r: Option<usize>)
    ensures
        match r {
            Some(j) => literal_end(bytes@, start as int, delim) == Some(j as int),
            None => literal_end(bytes@, start as int, delim) is None,
        },
{
    let n = bytes.len();
    let mut i: usize = start;
    loop
        invariant
            n == bytes@.len(),
            start <= i,
            literal_end(bytes@, i as int, delim) == literal_end(bytes@, start as int, delim),
        decreases n + 1 - i,
    {
        if i >= n {
            return None;
        }
        let b = bytes[i];
        if b == delim {
            return Some(i + 1);
        }
        if b == 0x5c {
            if i + 1 >= n {
                assert(literal_end(bytes@, i + 2, delim) is None);
                return None;
            }
            i += 2;
        } else {
            i += 1;
        }
    }
}

/// Skips a block comment's body from `start` to just past its closing `*/`.
fn skip_comment(bytes: &[u8], start: usize) -> (r: Option<usize>)
    ensures
        match r {
            Some(j) => comment_end(bytes@, start as int) == Some(j as int),
            None => comment_end(bytes@, start as int) is None,
        },
{
    let n = bytes.len();
    let mut i: usize = start;
    loop
        invariant
            n == bytes@.len(),
            start <= i,
            comment_end(bytes@, i as int) == comment_end(bytes@, start as int),
        decreases n - i,
    {
        if i >= n || i + 1 >= n {
            return None;
        }
        if bytes[i] == 0x2a && bytes[i + 1] == 0x2f {
            return Some(i + 2);
        }
        i += 1;
    }
}

/// Cuts the balanced prefix off a text that starts with an opening bracket:
/// everything up to the bracket that closes the first one. Brackets inside
/// string literals, block comments and regular-expression literals do not
/// count. `None` when the text does not start with `{`, `[` or `(`, or ends
/// before the first bracket is closed.
pub fn cut_after_js(mixed_json: &str) -> (r: Option<&str>)
    ensures
        match r {
            Some(p) => balanced_prefix(mixed_json.spec_bytes()) == Some(p.spec_bytes()),
            None => balanced_prefix(mixed_json.spec_bytes()) is None,
        },
{
    let bytes = mixed_json.as_bytes();
    let n = bytes.len();
    if n == 0 || !opens_bracket(bytes[0]) {
        return None;
    }
    let mut index: usize = 1;
    let mut depth: usize = 1;
    let mut last: u8 = bytes[0];
    while depth > 0
        invariant
            n == bytes@.len(),
            bytes@ == mixed_json.spec_bytes(),
            1 <= index <= n,
            depth <= index,
            scan_from(bytes@, ScanState { pos: index as int, depth: depth as int, last })
                == balanced_prefix_len(bytes@),
            depth == 0 ==> is_close_bracket(bytes@[index - 1]),
        decreases n - index,
    {
        if index >= n {
            return None;
        }
        proof {
            lemma_step_advances(
                bytes@,
                ScanState { pos: index as int, depth: depth as int, last },
            );
        }
        let b = bytes[index];
        if opens_bracket(b) {
            depth += 1;
            index += 1;
            last = b;
        } else if closes_bracket(b) {
            depth -= 1;
            index += 1;
            last = b;
        } else if quotes(b) {
            match skip_literal(bytes, index + 1, b) {
                Some(j) => {
                    index = j;
                },
                None => {
                    return None;
                },
            }
        } else if b == 0x2f && index + 1 < n && bytes[index + 1] == 0x2a {
            match skip_comment(bytes, index + 2) {
                Some(j) => {
                    index = j;
                },
                None => {
                    return None;
                },
            }
        } else if b == 0x2f && !alphanumeric(last) {
            match skip_literal(bytes, index + 1, 0x2f) {
                Some(j) => {
                    index = j;
                },
                None => {
                    return None;
                },
            }
        } else if space(b) {
            index += 1;
        } else {
            last = b;
            index += 1;
        }
    }
    proof {
        encode_utf8_valid_utf8(mixed_json@);
        lemma_boundary_after_ascii(bytes@, index as int);
        is_char_boundary_start_end_of_seq(bytes@);
    }
    Some(slice_bytes(mixed_json, 0, index))
}

} // verus!
