//! Addresses: the query parameters of a URL, read and written by the URL
//! parser.

use crate::pairs::{pairs_fit, pairs_view, text_fits};
use vstd::prelude::*;

verus! {

/// The query parameters that the URL parser finds in `url`, names and values
/// decoded, in their order. `None` where it does not take `url` for an
/// absolute URL.
pub uninterp spec fn url_query_pairs(url: Seq<char>) -> Option<Seq<(Seq<char>, Seq<char>)>>;

/// The URL that the URL parser makes of `url` when its query is replaced by
/// `pairs`, names and values encoded. `None` where it does not take `url`
/// for an absolute URL.
pub uninterp spec fn url_with_query(url: Seq<char>, pairs: Seq<(Seq<char>, Seq<char>)>) -> Option<
    Seq<char>,
>;

/// The host that the URL parser finds in `url`, or `None` inside where the
/// URL has no host. `None` where it does not take `url` for an absolute
/// URL.
pub uninterp spec fn url_host(url: Seq<char>) -> Option<Option<Seq<char>>>;

/// The characters of a text that may be absent in two ways.
pub open spec fn some_some_text_view(text: Option<Option<String>>) -> Option<Option<Seq<char>>> {
    match text {
        Some(inner) => Some(some_text_view(inner)),
        None => None,
    }
}

/// The characters of the pairs of a list that may be absent.
pub open spec fn some_pairs_view(pairs: Option<Vec<(String, String)>>) -> Option<
    Seq<(Seq<char>, Seq<char>)>,
> {
    match pairs {
        Some(p) => Some(pairs_view(p@)),
        None => None,
    }
}

/// The characters of a text that may be absent.
pub open spec fn some_text_view(text: Option<String>) -> Option<Seq<char>> {
    match text {
        Some(t) => Some(t@),
        None => None,
    }
}

/// `Url::parse`, then `Url::query_pairs` with each pair handed out as two
/// owned texts. The result is named, not stated: it is what the URL parser
/// makes of the text, and the same for the same text.
#[verifier::external_body]
pub(crate) fn query_pairs_of(url: &str) -> (r: Option<Vec<(String, String)>>)
    ensures
        some_pairs_view(r) == url_query_pairs(url@),
{
    url::Url::parse(url).ok().map(|parsed| parsed.query_pairs().into_owned().collect())
}

/// `Url::parse`, then `Url::query_pairs_mut` with `clear` and
/// `extend_pairs`, then the URL as text. The result is named, not stated.
/// The sizes are bounded because the URL parser holds offsets in 32 bits
/// and panics where a URL with a fragment outgrows them.
#[verifier::external_body]
pub(crate) fn with_query_pairs(url: &str, pairs: &Vec<(String, String)>) -> (r: Option<String>)
    requires
        text_fits(url@),
        pairs_fit(pairs_view(pairs@)),
    ensures
        some_text_view(r) == url_with_query(url@, pairs_view(pairs@)),
{
    url::Url::parse(url).ok().map(
        |mut parsed|
            {
                parsed.query_pairs_mut().clear().extend_pairs(pairs);
                String::from(parsed)
            },
    )
}

/// `Url::parse`, then `Url::host_str` as an owned text. The result is named,
/// not stated.
#[verifier::external_body]
pub(crate) fn host_of(url: &str) -> (r: Option<Option<String>>)
    ensures
        some_some_text_view(r) == url_host(url@),
{
    url::Url::parse(url).ok().map(|parsed| parsed.host_str().map(|host| host.to_owned()))
}

} // verus!
