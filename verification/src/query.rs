//! Query strings: the fields of a query-encoded text, read by the
//! query-string parser.

use vstd::prelude::*;

verus! {

/// The top-level fields that the query-string parser finds in `input`, each
/// with its text, or with `None` where its value is no plain text. `None`
/// where the parser rejects `input`.
pub uninterp spec fn query_fields(input: Seq<char>) -> Option<
    Seq<(Seq<char>, Option<Seq<char>>)>,
>;

/// The characters of a field.
pub open spec fn field_view(f: (String, Option<String>)) -> (Seq<char>, Option<Seq<char>>) {
    (
        f.0@,
        match f.1 {
            Some(t) => Some(t@),
            None => None,
        },
    )
}

/// The characters of the fields of a list that may be absent.
pub open spec fn fields_view(fields: Option<Vec<(String, Option<String>)>>) -> Option<
    Seq<(Seq<char>, Option<Seq<char>>)>,
> {
    match fields {
        Some(f) => Some(f@.map_values(|x: (String, Option<String>)| field_view(x))),
        None => None,
    }
}

/// `serde_qs::from_str` into a map of JSON values, each entry handed out as
/// its key and, where the value is a string, its text. The result is named,
/// not stated: it is what the query-string parser makes of the text, and
/// the same for the same text.
#[verifier::external_body]
pub(crate) fn parse_query_fields(input: &str) -> (r: Option<Vec<(String, Option<String>)>>)
    ensures
        fields_view(r) == query_fields(input@),
{
    let parsed: Result<serde_json::Map<String, serde_json::Value>, _> = serde_qs::from_str(input);
    let text = |value| match value {
        serde_json::Value::String(text) => Some(text),
        _ => None,
    };
    parsed.ok().map(|map| map.into_iter().map(|(key, value)| (key, text(value))).collect())
}

} // verus!
