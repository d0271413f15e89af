//! Video ids: the eleven characters that name a video, given as they are
//! or within the address of the video.

use crate::pairs::{pair_view, pairs_view};
use crate::patterns::{capture, regex_capture};
use crate::text::{find_bytes, occurs_at, same_text};
use crate::urls::{host_of, query_pairs_of, url_host, url_query_pairs};
use vstd::prelude::*;
use vstd::string::*;
use vstd::utf8::*;

verus! {

/// A character with the Unicode property White_Space.
pub open spec fn is_white_space(c: char) -> bool {
    let n = c as u32;
    (0x09 <= n <= 0x0d) || n == 0x20 || n == 0x85 || n == 0xa0 || n == 0x1680 || (0x2000 <= n
        <= 0x200a) || n == 0x2028 || n == 0x2029 || n == 0x202f || n == 0x205f || n == 0x3000
}

/// `text` without the whitespace it starts with.
pub open spec fn without_leading_space(text: Seq<char>) -> Seq<char>
    decreases text.len(),
{
    if text.len() > 0 && is_white_space(text[0]) {
        without_leading_space(text.drop_first())
    } else {
        text
    }
}

/// `text` without the whitespace it ends with.
pub open spec fn without_trailing_space(text: Seq<char>) -> Seq<char>
    decreases text.len(),
{
    if text.len() > 0 && is_white_space(text.last()) {
        without_trailing_space(text.drop_last())
    } else {
        text
    }
}

/// `text` without the whitespace it starts with and ends with.
pub open spec fn trimmed(text: Seq<char>) -> Seq<char> {
    without_trailing_space(without_leading_space(text))
}

/// `str::trim`: the text without its leading and trailing whitespace, which
/// the standard library defines as the characters with the Unicode property
/// White_Space.
#[verifier::external_body]
fn trim(text: &str) -> (r: &str)
    ensures
        r@ == trimmed(text@),
{
    text.trim()
}

/// A letter, a digit, a hyphen or an underscore, all ASCII.
pub open spec fn is_id_byte(b: u8) -> bool {
    (0x30 <= b <= 0x39) || (0x41 <= b <= 0x5a) || (0x61 <= b <= 0x7a) || b == 0x2d || b == 0x5f
}

/// Eleven bytes, each one that an id may hold.
pub open spec fn is_id(s: Seq<u8>) -> bool {
    s.len() == 11 && forall|i: int| 0 <= i < s.len() ==> is_id_byte(#[trigger] s[i])
}

/// Whether `id`, without the whitespace around it, is a video id.
pub open spec fn is_valid_id(id: Seq<char>) -> bool {
    is_id(encode_utf8(trimmed(id)))
}

/// The value of the last pair named `name`.
pub open spec fn last_value(pairs: Seq<(Seq<char>, Seq<char>)>, name: Seq<char>) -> Option<
    Seq<char>,
>
    decreases pairs.len(),
{
    if pairs.len() == 0 {
        None
    } else if pairs.last().0 == name {
        Some(pairs.last().1)
    } else {
        last_value(pairs.drop_last(), name)
    }
}

/// The expression that finds an id in the path of an address of a video.
pub open spec fn path_pattern() -> Seq<char> {
    r"(?m)(?:^|\W)(?:youtube(?:-nocookie)?\.com/(?:.*[?&]v=|v/|shorts/|e(?:mbed)?/|[^/]+/.+/)|youtu\.be/)([\w-]+)"@
}

/// The hosts whose addresses name a video in the query parameter `v`.
pub open spec fn is_query_domain(host: Seq<char>) -> bool {
    host == "youtube.com"@ || host == "www.youtube.com"@ || host == "m.youtube.com"@ || host
        == "music.youtube.com"@ || host == "gaming.youtube.com"@
}

/// The first eleven characters of `text`, or all of a shorter one.
pub open spec fn first_eleven(text: Seq<char>) -> Seq<char> {
    if text.len() <= 11 {
        text
    } else {
        text.subrange(0, 11)
    }
}

/// What in the address `url` may be the id of a video: the value of its
/// last query parameter `v`; without one, what the path pattern captures.
/// Nothing where `url`, with a `v` or without a match of the pattern, has a
/// host that names its videos otherwise.
pub open spec fn id_candidate(url: Seq<char>) -> Option<Seq<char>> {
    match url_query_pairs(url) {
        Some(pairs) => {
            let named = last_value(pairs, "v"@);
            match regex_capture(path_pattern(), url, 1) {
                Some(found) if named is None => found,
                _ => match url_host(url) {
                    Some(Some(host)) if !is_query_domain(host) => None,
                    _ => named,
                },
            }
        },
        None => None,
    }
}

/// The id of the video that the address `url` names, whitespace around the
/// address aside: the first eleven characters of the candidate, where they
/// are a video id.
pub open spec fn url_video_id(url: Seq<char>) -> Option<Seq<char>> {
    match id_candidate(trimmed(url)) {
        Some(candidate) => if is_valid_id(first_eleven(candidate)) {
            Some(first_eleven(candidate))
        } else {
            None
        },
        None => None,
    }
}

/// Whether `text` starts with `http://` or `https://`.
pub open spec fn has_http_scheme(text: Seq<u8>) -> bool {
    occurs_at(text, "http://".spec_bytes(), 0) || occurs_at(text, "https://".spec_bytes(), 0)
}

/// The id of the video that `url` names: `url` itself where it is a video
/// id; else, where it is an address with the scheme `http` or `https`, the
/// id that the address names.
pub open spec fn video_id(url: Seq<char>) -> Option<Seq<char>> {
    if is_valid_id(url) {
        Some(url)
    } else if has_http_scheme(encode_utf8(trimmed(url))) {
        url_video_id(url)
    } else {
        None
    }
}

fn id_byte(b: u8) -> (r: bool)
    ensures
        r == is_id_byte(b),
{
    (0x30 <= b && b <= 0x39) || (0x41 <= b && b <= 0x5a) || (0x61 <= b && b <= 0x7a) || b == 0x2d
        || b == 0x5f
}

/// Whether `id`, without the whitespace around it, is a video id: eleven
/// characters, each a letter, a digit, a hyphen or an underscore.
pub fn validate_id(id: String) -> (r: bool)
    ensures
        r == is_valid_id(id@),
{
    let bytes = trim(id.as_str()).as_bytes();
    if bytes.len() != 11 {
        return false;
    }
    let mut i: usize = 0;
    while i < 11
        invariant
            i <= 11,
            bytes@.len() == 11,
            bytes@ == encode_utf8(trimmed(id@)),
            forall|k: int| 0 <= k < i ==> is_id_byte(#[trigger] bytes@[k]),
        decreases 11 - i,
    {
        if !id_byte(bytes[i]) {
            return false;
        }
        i += 1;
    }
    true
}

/// The value of the last pair named `name`.
fn find_last_value(pairs: &Vec<(String, String)>, name: &str) -> (r: Option<String>)
    ensures
        match r {
            Some(v) => last_value(pairs_view(pairs@), name@) == Some(v@),
            None => last_value(pairs_view(pairs@), name@) is None,
        },
{
    let ghost all = pairs_view(pairs@);
    let mut i: usize = pairs.len();
    assert(all.subrange(0, all.len() as int) =~= all);
    while i > 0
        invariant
            i <= pairs.len(),
            all == pairs_view(pairs@),
            last_value(all.subrange(0, i as int), name@) == last_value(all, name@),
        decreases i,
    {
        let ghost first = all.subrange(0, i as int);
        assert(first.last() == pair_view(pairs@[i - 1]));
        assert(first.drop_last() =~= all.subrange(0, i - 1));
        if same_text(pairs[i - 1].0.as_str(), name) {
            return Some(pairs[i - 1].1.clone());
        }
        i -= 1;
    }
    None
}

/// Whether `host` names its videos in the query parameter `v`.
fn query_domain(host: &str) -> (r: bool)
    ensures
        r == is_query_domain(host@),
{
    same_text(host, "youtube.com") || same_text(host, "www.youtube.com") || same_text(
        host,
        "m.youtube.com",
    ) || same_text(host, "music.youtube.com") || same_text(host, "gaming.youtube.com")
}

/// The first eleven characters of `text`.
fn take_eleven(text: &str) -> (r: String)
    ensures
        r@ == first_eleven(text@),
{
    let n = text.unicode_len();
    if n <= 11 {
        text.to_owned()
    } else {
        text.substring_char(0, 11).to_owned()
    }
}

/// The id of the video that an address names. It is the value of the query
/// parameter `v`, for the hosts that name their videos so; or what follows
/// `v/`, `shorts/`, `embed/` and the like in the path, or the host of a
/// short address.
pub fn get_url_video_id(url: &str) -> (r: Option<String>)
    ensures
        match r {
            Some(id) => url_video_id(url@) == Some(id@),
            None => url_video_id(url@) is None,
        },
{
    let address = trim(url);
    let pairs = match query_pairs_of(address) {
        Some(pairs) => pairs,
        None => {
            return None;
        },
    };
    let named = find_last_value(&pairs, "v");
    let found = capture(
        r"(?m)(?:^|\W)(?:youtube(?:-nocookie)?\.com/(?:.*[?&]v=|v/|shorts/|e(?:mbed)?/|[^/]+/.+/)|youtu\.be/)([\w-]+)",
        address,
        1,
    );
    let candidate = match (found, named.is_none()) {
        (Some(in_path), true) => in_path,
        _ => match host_of(address) {
            Some(Some(host)) => {
                if !query_domain(host.as_str()) {
                    return None;
                }
                named
            },
            _ => named,
        },
    };
    match candidate {
        Some(text) => {
            let id = take_eleven(text.as_str());
            if validate_id(id.clone()) {
                Some(id)
            } else {
                None
            }
        },
        None => None,
    }
}

/// The id of the video that `url` names, be it the id itself or an address
/// of the video.
pub fn get_video_id(url: &str) -> (r: Option<String>)
    ensures
        match r {
            Some(id) => video_id(url@) == Some(id@),
            None => video_id(url@) is None,
        },
{
    if validate_id(url.to_owned()) {
        return Some(url.to_owned());
    }
    let address = trim(url).as_bytes();
    let http = "http://".as_bytes();
    let https = "https://".as_bytes();
    let with_scheme = (http.len() <= address.len() && find_bytes(
        vstd::slice::slice_subrange(address, 0, http.len()),
        http,
        0,
    ).is_some()) || (https.len() <= address.len() && find_bytes(
        vstd::slice::slice_subrange(address, 0, https.len()),
        https,
        0,
    ).is_some());
    proof {
        let a = address@;
        let h = http@;
        let hs = https@;
        if h.len() <= a.len() {
            crate::text::lemma_find_from_is_first(a.subrange(0, h.len() as int), h, 0);
            assert(a.subrange(0, h.len() as int).subrange(0, h.len() as int) =~= a.subrange(
                0,
                h.len() as int,
            ));
        }
        if hs.len() <= a.len() {
            crate::text::lemma_find_from_is_first(a.subrange(0, hs.len() as int), hs, 0);
            assert(a.subrange(0, hs.len() as int).subrange(0, hs.len() as int) =~= a.subrange(
                0,
                hs.len() as int,
            ));
        }
    }
    if with_scheme {
        get_url_video_id(url)
    } else {
        None
    }
}

/// The expression that finds the address of the player script in a page.
pub open spec fn player_pattern() -> Seq<char> {
    r#"<script\s+src="([^"]+)"(?:\s+type="text\\//javascript")?\s+name="player_ias\\//base"\s*>|"jsUrl":"([^"]+)""#@
}

/// The address of the player script that a page names: what follows
/// `"jsUrl":` in it; the empty text where the page names the script in a
/// script element only; `None` where it names none.
pub open spec fn html5player(body: Seq<char>) -> Option<Seq<char>> {
    match regex_capture(player_pattern(), body, 2) {
        Some(Some(address)) => Some(address),
        Some(None) => Some(Seq::empty()),
        None => None,
    }
}

/// Finds the address of the player script in the page of a video.
pub fn get_html5player(body: &str) -> (r: Option<String>)
    ensures
        match r {
            Some(address) => html5player(body@) == Some(address@),
            None => html5player(body@) is None,
        },
{
    match capture(
        r#"<script\s+src="([^"]+)"(?:\s+type="text\\//javascript")?\s+name="player_ias\\//base"\s*>|"jsUrl":"([^"]+)""#,
        body,
        2,
    ) {
        Some(Some(address)) => Some(address),
        Some(None) => Some(String::new()),
        None => None,
    }
}

} // verus!
