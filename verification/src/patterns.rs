//! Patterns: what a regular expression captures in a text, found by the
//! regular-expression engine.

use crate::urls::some_some_text_view;
use vstd::prelude::*;
use vstd::string::*;

verus! {

/// What the group `group` of the regular expression `pattern` captures at
/// the first match in `text`, or `None` inside where the group takes no part
/// in that match. `None` where the expression does not match, or is none.
pub uninterp spec fn regex_capture(pattern: Seq<char>, text: Seq<char>, group: int) -> Option<
    Option<Seq<char>>,
>;

/// `Regex::new`, then `Regex::captures` and `Captures::get`, the match
/// handed out as an owned text. The result is named, not stated: it is what
/// the engine makes of the expression and the text, and the same for the
/// same two.
#[verifier::external_body]
pub(crate) fn capture(pattern: &str, text: &str, group: usize) -> (r: Option<Option<String>>)
    ensures
        some_some_text_view(r) == regex_capture(pattern@, text@, group as int),
{
    regex::Regex::new(pattern).ok().and_then(
        |expression|
            expression.captures(text).map(
                |found| found.get(group).map(|part| part.as_str().to_owned()),
            ),
    )
}

} // verus!
