//! What the address of a format tells about it: whether it is a live
//! broadcast, an HLS manifest or a DASH manifest.

use crate::patterns::{capture, regex_capture};
use crate::text::{contains_bytes, find_bytes};
use vstd::prelude::*;
use vstd::string::*;

verus! {

/// A letter, a digit or an underscore, all ASCII.
pub open spec fn is_word_byte(b: u8) -> bool {
    (0x30 <= b <= 0x39) || (0x41 <= b <= 0x5a) || (0x61 <= b <= 0x7a) || b == 0x5f
}

/// The expression that tells the address of a live broadcast: it names the
/// source `yt_live_broadcast`, after a slash or an equals sign, as a word of
/// its own.
pub open spec fn live_pattern() -> Seq<char> {
    r"\bsource[/=]yt_live_broadcast\b"@
}

/// The address of a live broadcast: the live pattern matches in it.
pub open spec fn is_live_url(url: Seq<char>) -> bool {
    regex_capture(live_pattern(), url, 0) is Some
}

/// The address of an HLS manifest.
pub open spec fn is_hls_url(url: Seq<u8>) -> bool {
    contains_bytes(url, "/manifest/hls_variant/".spec_bytes()) || contains_bytes(
        url,
        "/manifest/hls_playlist/".spec_bytes(),
    )
}

/// The address of a DASH manifest.
pub open spec fn is_dash_url(url: Seq<u8>) -> bool {
    contains_bytes(url, "/manifest/dash/".spec_bytes())
}

/// Whether `url` is the address of a live broadcast.
pub fn live_url(url: &str) -> (r: bool)
    ensures
        r == is_live_url(url@),
{
    capture(r"\bsource[/=]yt_live_broadcast\b", url, 0).is_some()
}

/// Whether `url` is the address of an HLS manifest.
pub fn hls_url(url: &str) -> (r: bool)
    ensures
        r == is_hls_url(url.spec_bytes()),
{
    find_bytes(url.as_bytes(), "/manifest/hls_variant/".as_bytes(), 0).is_some() || find_bytes(
        url.as_bytes(),
        "/manifest/hls_playlist/".as_bytes(),
        0,
    ).is_some()
}

/// Whether `url` is the address of a DASH manifest.
pub fn dash_url(url: &str) -> (r: bool)
    ensures
        r == is_dash_url(url.spec_bytes()),
{
    find_bytes(url.as_bytes(), "/manifest/dash/".as_bytes(), 0).is_some()
}

} // verus!
