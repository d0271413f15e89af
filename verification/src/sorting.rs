//! The orders of the ranking as comparison functions: `Less` puts the first
//! format before the second.

use crate::format::VideoFormat;
use crate::ranking::{compare_by, compare_formats, compares_by, rank_order, Ranking};
use std::cmp::Ordering;
use vstd::prelude::*;

verus! {

/// `Less` for a negative number, `Equal` for zero, `Greater` for a positive
/// one.
pub open spec fn ordering_of(c: int) -> Ordering {
    if c < 0 {
        Ordering::Less
    } else if c == 0 {
        Ordering::Equal
    } else {
        Ordering::Greater
    }
}

fn to_ordering(c: i8) -> (r: Ordering)
    ensures
        c < 0 ==> r == Ordering::Less,
        c == 0 ==> r == Ordering::Equal,
        c > 0 ==> r == Ordering::Greater,
{
    if c < 0 {
        Ordering::Less
    } else if c == 0 {
        Ordering::Equal
    } else {
        Ordering::Greater
    }
}

/// Compares two formats by a list of key functions, applied in order until
/// one gives the two different keys: the format with the greater key comes
/// first. `Equal` when every function gives the two the same key.
pub fn sort_formats_by<F>(a: &VideoFormat, b: &VideoFormat, sort_by: Vec<F>) -> (r: Ordering) where
    F: Fn(&VideoFormat) -> i32,

    requires
        forall|i: int| 0 <= i < sort_by.len() ==> call_requires(#[trigger] sort_by[i], (a,)),
        forall|i: int| 0 <= i < sort_by.len() ==> call_requires(#[trigger] sort_by[i], (b,)),
    ensures
        exists|c: int| #[trigger] compares_by(sort_by@, *a, *b, c) && r == ordering_of(c),
{
    to_ordering(compare_by(a, b, &sort_by))
}

/// The general ranking: by HLS, by DASH, by carrying both video and audio,
/// by carrying video, by a known content length, by the number of the
/// quality label, by bitrate, by audio bitrate, by the video encoding, by
/// the audio encoding. The first of these to differ decides, and the greater
/// comes first.
pub fn sort_formats(a: &VideoFormat, b: &VideoFormat) -> (r: Ordering)
    ensures
        r == ordering_of(compare_formats(Ranking::General, *a, *b)),
{
    to_ordering(rank_order(Ranking::General, a, b))
}

/// The video ranking: by the number of the quality label, by bitrate, by
/// the video encoding. The first of these to differ decides, and the greater
/// comes first.
pub fn sort_formats_by_video(a: &VideoFormat, b: &VideoFormat) -> (r: Ordering)
    ensures
        r == ordering_of(compare_formats(Ranking::Video, *a, *b)),
{
    to_ordering(rank_order(Ranking::Video, a, b))
}

/// The audio ranking: by audio bitrate, by the audio encoding. The first of
/// these to differ decides, and the greater comes first.
pub fn sort_formats_by_audio(a: &VideoFormat, b: &VideoFormat) -> (r: Ordering)
    ensures
        r == ordering_of(compare_formats(Ranking::Audio, *a, *b)),
{
    to_ordering(rank_order(Ranking::Audio, a, b))
}

} // verus!
