//! What holds of a selection whatever the formats: the first of an order is
//! the earliest of the formats that none is before, the last the latest of
//! those that are before none; and the rankings are such orders.

use crate::format::{VideoFormat, VideoSearchOptions};
use crate::ranking::{compare_formats, compare_keys, keys_of, Ranking};
use crate::select::{
    chosen, eligible, leader, lemma_chosen_is_accepted, passes, ranked_before, trailer,
};
use vstd::prelude::*;

verus! {

/// `before` orders formats as a ranking does: of two formats not each is
/// before the other, and a format that is not before a second, which is not
/// before a third, is not before the third. Formats that neither is before
/// the other rank alike.
pub open spec fn is_ranking(before: spec_fn(VideoFormat, VideoFormat) -> bool) -> bool {
    &&& forall|x: VideoFormat, y: VideoFormat| #[trigger] before(x, y) ==> !before(y, x)
    &&& forall|x: VideoFormat, y: VideoFormat, z: VideoFormat|
        !#[trigger] before(x, y) && !#[trigger] before(y, z) ==> !before(x, z)
}

/// In a ranking, a format that is before a second, which is before a third,
/// is before the third.
pub proof fn lemma_ranking_is_transitive(
    before: spec_fn(VideoFormat, VideoFormat) -> bool,
    x: VideoFormat,
    y: VideoFormat,
    z: VideoFormat,
)
    requires
        is_ranking(before),
    ensures
        before(x, y) && before(y, z) ==> before(x, z),
{
    if before(x, y) && before(y, z) && !before(x, z) {
        // z is not before y, so with x not before z, x is not before y
        assert(!before(z, y));
        assert(!before(x, y));
    }
}

/// The first of a ranking is the earliest of the accepted formats that none
/// is before: no accepted format is before it, and it is before every
/// accepted format that comes earlier in the list.
pub proof fn lemma_leader_is_first_of_the_best(
    formats: Seq<VideoFormat>,
    n: int,
    accept: spec_fn(VideoFormat) -> bool,
    before: spec_fn(VideoFormat, VideoFormat) -> bool,
)
    requires
        0 <= n <= formats.len(),
        is_ranking(before),
    ensures
        leader(formats, n, accept, before) matches Some(l) ==> {
            &&& 0 <= l < n && accept(formats[l])
            &&& forall|j: int|
                0 <= j < n && accept(#[trigger] formats[j]) ==> !before(formats[j], formats[l])
            &&& forall|j: int|
                0 <= j < l && accept(#[trigger] formats[j]) ==> before(formats[l], formats[j])
        },
    decreases n,
{
    if n > 0 {
        lemma_leader_is_first_of_the_best(formats, n - 1, accept, before);
        lemma_chosen_is_accepted(formats, n - 1, accept, before);
        let x = formats[n - 1];
        if accept(x) {
            match leader(formats, n - 1, accept, before) {
                Some(l) => {
                    let top = formats[l];
                    if before(x, top) {
                        assert forall|j: int| 0 <= j < n && accept(
                            #[trigger] formats[j],
                        ) implies !before(formats[j], x) by {
                            lemma_ranking_is_transitive(before, formats[j], x, top);
                        }
                        assert forall|j: int| 0 <= j < n - 1 && accept(
                            #[trigger] formats[j],
                        ) implies before(x, formats[j]) by {
                            if j < l {
                                lemma_ranking_is_transitive(before, x, top, formats[j]);
                            }
                        }
                    }
                },
                None => {},
            }
        }
    }
}

/// The last of a ranking is the latest of the accepted formats that are
/// before none: it is before no accepted format, and every accepted format
/// that comes later in the list is before it.
pub proof fn lemma_trailer_is_last_of_the_worst(
    formats: Seq<VideoFormat>,
    n: int,
    accept: spec_fn(VideoFormat) -> bool,
    before: spec_fn(VideoFormat, VideoFormat) -> bool,
)
    requires
        0 <= n <= formats.len(),
        is_ranking(before),
    ensures
        trailer(formats, n, accept, before) matches Some(t) ==> {
            &&& 0 <= t < n && accept(formats[t])
            &&& forall|j: int|
                0 <= j < n && accept(#[trigger] formats[j]) ==> !before(formats[t], formats[j])
            &&& forall|j: int|
                t < j < n && accept(#[trigger] formats[j]) ==> before(formats[j], formats[t])
        },
    decreases n,
{
    if n > 0 {
        lemma_trailer_is_last_of_the_worst(formats, n - 1, accept, before);
        lemma_chosen_is_accepted(formats, n - 1, accept, before);
        let x = formats[n - 1];
        if accept(x) {
            match trailer(formats, n - 1, accept, before) {
                Some(t) => {
                    let low = formats[t];
                    if !before(x, low) {
                        assert forall|j: int| 0 <= j < n && accept(
                            #[trigger] formats[j],
                        ) implies !before(x, formats[j]) by {
                            if j < n - 1 {
                                // x is not before the last one, which is before none
                                assert(!before(low, formats[j]));
                            }
                        }
                    } else {
                        assert forall|j: int| 0 <= j < n && accept(
                            #[trigger] formats[j],
                        ) implies !before(low, formats[j]) by {

                        }
                    }
                },
                None => {},
            }
        }
    }
}

/// `i` is the place of the earliest of the accepted formats that none is
/// before.
pub open spec fn is_first_of_the_best(
    formats: Seq<VideoFormat>,
    accept: spec_fn(VideoFormat) -> bool,
    before: spec_fn(VideoFormat, VideoFormat) -> bool,
    i: int,
) -> bool {
    &&& 0 <= i < formats.len() && accept(formats[i])
    &&& forall|j: int|
        0 <= j < formats.len() && accept(#[trigger] formats[j]) ==> !before(
            formats[j],
            formats[i],
        )
    &&& forall|j: int| 0 <= j < i && accept(#[trigger] formats[j]) ==> before(formats[i], formats[j])
}

/// `i` is the place of the latest of the accepted formats that are before
/// none.
pub open spec fn is_last_of_the_worst(
    formats: Seq<VideoFormat>,
    accept: spec_fn(VideoFormat) -> bool,
    before: spec_fn(VideoFormat, VideoFormat) -> bool,
    i: int,
) -> bool {
    &&& 0 <= i < formats.len() && accept(formats[i])
    &&& forall|j: int|
        0 <= j < formats.len() && accept(#[trigger] formats[j]) ==> !before(
            formats[i],
            formats[j],
        )
    &&& forall|j: int|
        i < j < formats.len() && accept(#[trigger] formats[j]) ==> before(formats[j], formats[i])
}

/// In a ranking, what is chosen first is the earliest of the best, and what
/// is chosen last is the latest of the worst.
pub proof fn lemma_chosen_in_a_ranking(
    formats: Seq<VideoFormat>,
    first: bool,
    accept: spec_fn(VideoFormat) -> bool,
    before: spec_fn(VideoFormat, VideoFormat) -> bool,
)
    requires
        is_ranking(before),
    ensures
        chosen(formats, first, accept, before) matches Some(i) ==> if first {
            is_first_of_the_best(formats, accept, before, i)
        } else {
            is_last_of_the_worst(formats, accept, before, i)
        },
{
    lemma_leader_is_first_of_the_best(formats, formats.len() as int, accept, before);
    lemma_trailer_is_last_of_the_worst(formats, formats.len() as int, accept, before);
}

/// Lists of keys of one length compare the other way round when they are
/// exchanged.
pub proof fn lemma_compare_exchanged(a: Seq<int>, b: Seq<int>)
    requires
        a.len() == b.len(),
    ensures
        compare_keys(b, a) == -compare_keys(a, b),
    decreases a.len(),
{
    if a.len() > 0 && a[0] == b[0] {
        lemma_compare_exchanged(a.drop_first(), b.drop_first());
    }
}

/// Of three lists of keys of one length, where the first is not before the
/// second and the second not before the third, the first is not before the
/// third; and it is alike the third only where all three are alike.
pub proof fn lemma_compare_chain(a: Seq<int>, b: Seq<int>, c: Seq<int>)
    requires
        a.len() == b.len(),
        b.len() == c.len(),
        compare_keys(a, b) >= 0,
        compare_keys(b, c) >= 0,
    ensures
        compare_keys(a, c) >= 0,
        compare_keys(a, c) == 0 <==> compare_keys(a, b) == 0 && compare_keys(b, c) == 0,
    decreases a.len(),
{
    if a.len() > 0 {
        if a[0] == b[0] && b[0] == c[0] {
            lemma_compare_chain(a.drop_first(), b.drop_first(), c.drop_first());
        }
    }
}

/// Each of the three rankings, with the general ranking deciding between
/// formats that it ranks alike, orders formats as a ranking does.
pub proof fn lemma_rankings_are_rankings(by: Ranking)
    ensures
        is_ranking(|x: VideoFormat, y: VideoFormat| ranked_before(by, x, y)),
{
    let before = |x: VideoFormat, y: VideoFormat| ranked_before(by, x, y);
    assert forall|x: VideoFormat, y: VideoFormat| #[trigger] before(x, y) implies !before(
        y,
        x,
    ) by {
        lemma_key_counts(by, x, y, y);
        lemma_key_counts(Ranking::General, x, y, y);
        lemma_compare_exchanged(keys_of(by, x), keys_of(by, y));
        lemma_compare_exchanged(keys_of(Ranking::General, x), keys_of(Ranking::General, y));
    }
    assert forall|x: VideoFormat, y: VideoFormat, z: VideoFormat|
        !#[trigger] before(x, y) && !#[trigger] before(y, z) implies !before(x, z) by {
        lemma_key_counts(by, x, y, z);
        lemma_key_counts(Ranking::General, x, y, z);
        lemma_compare_sign(keys_of(by, x), keys_of(by, y));
        lemma_compare_sign(keys_of(by, y), keys_of(by, z));
        lemma_compare_chain(keys_of(by, x), keys_of(by, y), keys_of(by, z));
        if compare_formats(by, x, y) == 0 && compare_formats(by, y, z) == 0 {
            lemma_compare_chain(
                keys_of(Ranking::General, x),
                keys_of(Ranking::General, y),
                keys_of(Ranking::General, z),
            );
        }
    }
}

/// A comparison of keys gives -1, 0 or 1.
pub proof fn lemma_compare_sign(a: Seq<int>, b: Seq<int>)
    ensures
        -1 <= compare_keys(a, b) <= 1,
    decreases a.len(),
{
    if a.len() > 0 && b.len() > 0 && a[0] == b[0] {
        lemma_compare_sign(a.drop_first(), b.drop_first());
    }
}

/// The formats of one ranking have as many keys each.
pub proof fn lemma_key_counts(by: Ranking, x: VideoFormat, y: VideoFormat, z: VideoFormat)
    ensures
        keys_of(by, x).len() == keys_of(by, y).len(),
        keys_of(by, y).len() == keys_of(by, z).len(),
{
}

/// Nothing is chosen exactly where no format is accepted.
pub proof fn lemma_nothing_chosen_iff_nothing_accepted(
    formats: Seq<VideoFormat>,
    first: bool,
    accept: spec_fn(VideoFormat) -> bool,
    before: spec_fn(VideoFormat, VideoFormat) -> bool,
)
    ensures
        chosen(formats, first, accept, before) is None <==> forall|j: int|
            0 <= j < formats.len() ==> !accept(#[trigger] formats[j]),
{
    lemma_chosen_is_accepted(formats, formats.len() as int, accept, before);
}

/// Among formats that carry audio only and are not live, nothing stays in
/// the selection under the video filter, whatever the filter of the quality
/// policy.
pub proof fn lemma_video_filter_rejects_audio_only<P: Fn(&VideoFormat) -> bool>(
    formats: Seq<VideoFormat>,
    second: VideoSearchOptions<P>,
)
    requires
        forall|j: int|
            0 <= j < formats.len() ==> {
                &&& !(#[trigger] formats[j]).has_video
                &&& formats[j].has_audio
                &&& !formats[j].is_live
            },
    ensures
        forall|j: int|
            0 <= j < formats.len() ==> !eligible(
                formats,
                VideoSearchOptions::<P>::Video,
                second,
                #[trigger] formats[j],
            ),
{
    assert forall|j: int| 0 <= j < formats.len() implies !eligible(
        formats,
        VideoSearchOptions::<P>::Video,
        second,
        #[trigger] formats[j],
    ) by {
        assert(!passes(VideoSearchOptions::<P>::Video, formats[j]));
    }
}

} // verus!
