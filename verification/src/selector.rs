//! The choice of one format under a quality policy.

use crate::format::{VideoError, VideoFormat, VideoOptions, VideoQuality, VideoSearchOptions};
use crate::ranking::{compare_formats, rank_order, Ranking};
use crate::select::{
    can_ask_all, choose_ranked, chosen, decided, eligibility, eligible, follows,
    pick, place, ranked_before, scan,
};
use crate::select_laws::{
    is_first_of_the_best, is_last_of_the_worst, lemma_chosen_in_a_ranking,
    lemma_nothing_chosen_iff_nothing_accepted, lemma_rankings_are_rankings,
    lemma_video_filter_rejects_audio_only,
};
use std::cmp::Ordering;
use vstd::prelude::*;

verus! {

/// What a custom comparison says of `x` and `y`.
pub open spec fn custom_order<C: Fn(&VideoFormat, &VideoFormat) -> Ordering>(
    cmp: C,
    x: VideoFormat,
    y: VideoFormat,
) -> Ordering {
    choose|o: Ordering| call_ensures(cmp, (&x, &y), o)
}

/// Whether a format is put before another, given what a custom comparison
/// says of the two and whether the general ranking has it before the other:
/// the general ranking decides where the comparison says `Equal`.
pub open spec fn leads(o: Ordering, generally: bool) -> bool {
    match o {
        Ordering::Less => true,
        Ordering::Equal => generally,
        Ordering::Greater => false,
    }
}

/// Whether `x` is before `y` in the order of the quality policy.
pub open spec fn precedes<P, C: Fn(&VideoFormat, &VideoFormat) -> Ordering>(
    quality: VideoQuality<P, C>,
    x: VideoFormat,
    y: VideoFormat,
) -> bool {
    match quality {
        VideoQuality::Highest | VideoQuality::Lowest => ranked_before(Ranking::General, x, y),
        VideoQuality::HighestAudio | VideoQuality::LowestAudio => ranked_before(
            Ranking::Audio,
            x,
            y,
        ),
        VideoQuality::HighestVideo | VideoQuality::LowestVideo => ranked_before(
            Ranking::Video,
            x,
            y,
        ),
        VideoQuality::Custom(_, cmp) => leads(
            custom_order(cmp, x, y),
            compare_formats(Ranking::General, x, y) < 0,
        ),
    }
}

/// The filter that the quality policy applies after the capability filter:
/// audio only or video only for the policies named so, its own for a custom
/// policy, and the capability filter once more for the others.
pub open spec fn second_filter<P, C>(options: VideoOptions<P, C>) -> VideoSearchOptions<P> {
    match options.quality {
        VideoQuality::Highest | VideoQuality::Lowest => options.filter,
        VideoQuality::HighestAudio | VideoQuality::LowestAudio => VideoSearchOptions::Audio,
        VideoQuality::HighestVideo | VideoQuality::LowestVideo => VideoSearchOptions::Video,
        VideoQuality::Custom(own, _) => own,
    }
}

/// Whether the policy selects the first in its order; else the last.
pub open spec fn takes_first<P, C>(quality: VideoQuality<P, C>) -> bool {
    match quality {
        VideoQuality::Lowest | VideoQuality::LowestAudio | VideoQuality::LowestVideo => false,
        _ => true,
    }
}

/// The place of the format that `options` select among `formats`. `None`
/// when no format stays in the selection.
pub open spec fn selection<P: Fn(&VideoFormat) -> bool, C: Fn(&VideoFormat, &VideoFormat) -> Ordering>(
    formats: Seq<VideoFormat>,
    options: VideoOptions<P, C>,
) -> Option<int> {
    chosen(
        formats,
        takes_first(options.quality),
        |f: VideoFormat| eligible(formats, options.filter, second_filter(options), f),
        |x: VideoFormat, y: VideoFormat| precedes(options.quality, x, y),
    )
}

/// The comparison of a custom policy can be called on each two of
/// `formats`.
pub open spec fn can_order_all<P, C: Fn(&VideoFormat, &VideoFormat) -> Ordering>(
    quality: VideoQuality<P, C>,
    formats: Seq<VideoFormat>,
) -> bool {
    match quality {
        VideoQuality::Custom(_, cmp) => forall|i: int, j: int|
            0 <= i < formats.len() && 0 <= j < formats.len() ==> call_requires(
                cmp,
                (&#[trigger] formats[i], &#[trigger] formats[j]),
            ),
        _ => true,
    }
}

/// The comparison of a custom policy has one answer for each two of
/// `formats`.
pub open spec fn order_decided<P, C: Fn(&VideoFormat, &VideoFormat) -> Ordering>(
    quality: VideoQuality<P, C>,
    formats: Seq<VideoFormat>,
) -> bool {
    match quality {
        VideoQuality::Custom(_, cmp) => forall|i: int, j: int, o1: Ordering, o2: Ordering|
            0 <= i < formats.len() && 0 <= j < formats.len() && call_ensures(
                cmp,
                (&#[trigger] formats[i], &#[trigger] formats[j]),
                o1,
            ) && call_ensures(cmp, (&formats[i], &formats[j]), o2) ==> o1 == o2,
        _ => true,
    }
}

/// The predicates and the comparison that `options` hold can be called on
/// `formats`.
pub open spec fn can_apply<P: Fn(&VideoFormat) -> bool, C: Fn(&VideoFormat, &VideoFormat) -> Ordering>(
    options: VideoOptions<P, C>,
    formats: Seq<VideoFormat>,
) -> bool {
    &&& can_ask_all(options.filter, formats)
    &&& can_ask_all(second_filter(options), formats)
    &&& can_order_all(options.quality, formats)
}

/// The predicates and the comparison that `options` hold have one answer
/// each on `formats`. This holds of every filter and policy but the custom
/// ones.
pub open spec fn single_valued<P: Fn(&VideoFormat) -> bool, C: Fn(&VideoFormat, &VideoFormat) -> Ordering>(
    options: VideoOptions<P, C>,
    formats: Seq<VideoFormat>,
) -> bool {
    &&& decided(options.filter, formats)
    &&& decided(second_filter(options), formats)
    &&& order_decided(options.quality, formats)
}

/// Whether a format that a custom comparison orders so is put before the
/// other.
fn leads_by(o: Ordering, generally: bool) -> (r: bool)
    ensures
        r == leads(o, generally),
{
    match o {
        Ordering::Less => true,
        Ordering::Equal => generally,
        Ordering::Greater => false,
    }
}

/// Selects one of `formats`. The candidates are the formats that the
/// capability filter of `options` asks for, and every live format; where a
/// candidate is an HLS format, only HLS formats and live formats stay. The
/// quality policy then filters once more and puts what is left in its
/// order: `Highest` and `Lowest` in the general ranking; the audio and the
/// video policies, among audio-only or video-only formats, in the audio or
/// the video ranking; a custom policy, among the formats of its own filter,
/// by its own comparison. Formats that an order does not tell apart stay in
/// the general ranking, and formats that this does not tell apart stay as
/// they were. The first is returned, or for the `Lowest` policies the last;
/// `FormatNotFound` when nothing is left.
pub fn choose_format<P, C>(formats: &[VideoFormat], options: &VideoOptions<P, C>) -> (r: Result<
    VideoFormat,
    VideoError,
>) where P: Fn(&VideoFormat) -> bool, C: Fn(&VideoFormat, &VideoFormat) -> Ordering
    requires
        can_apply(*options, formats@),
    ensures
        r matches Err(e) ==> e == VideoError::FormatNotFound,
        r matches Ok(f) ==> exists|i: int| 0 <= i < formats@.len() && f@ == formats@[i]@,
        single_valued(*options, formats@) ==> match selection(formats@, *options) {
            Some(i) => r matches Ok(f) && f@ == formats@[i]@,
            None => r == Err::<VideoFormat, VideoError>(VideoError::FormatNotFound),
        },
{
    let audio: VideoSearchOptions<P> = VideoSearchOptions::Audio;
    let video: VideoSearchOptions<P> = VideoSearchOptions::Video;
    let ghost accept = |f: VideoFormat| eligible(formats@, options.filter, second_filter(*options), f);
    let ghost order = |x: VideoFormat, y: VideoFormat| precedes(options.quality, x, y);
    let at = match &options.quality {
        VideoQuality::Highest => {
            assert(order =~= (|x: VideoFormat, y: VideoFormat|
                ranked_before(Ranking::General, x, y)));
            choose_ranked(formats, &options.filter, &options.filter, Ranking::General, true)
        },
        VideoQuality::Lowest => {
            assert(order =~= (|x: VideoFormat, y: VideoFormat|
                ranked_before(Ranking::General, x, y)));
            choose_ranked(formats, &options.filter, &options.filter, Ranking::General, false)
        },
        VideoQuality::HighestAudio => {
            assert(order =~= (|x: VideoFormat, y: VideoFormat|
                ranked_before(Ranking::Audio, x, y)));
            choose_ranked(formats, &options.filter, &audio, Ranking::Audio, true)
        },
        VideoQuality::LowestAudio => {
            assert(order =~= (|x: VideoFormat, y: VideoFormat|
                ranked_before(Ranking::Audio, x, y)));
            choose_ranked(formats, &options.filter, &audio, Ranking::Audio, false)
        },
        VideoQuality::HighestVideo => {
            assert(order =~= (|x: VideoFormat, y: VideoFormat|
                ranked_before(Ranking::Video, x, y)));
            choose_ranked(formats, &options.filter, &video, Ranking::Video, true)
        },
        VideoQuality::LowestVideo => {
            assert(order =~= (|x: VideoFormat, y: VideoFormat|
                ranked_before(Ranking::Video, x, y)));
            choose_ranked(formats, &options.filter, &video, Ranking::Video, false)
        },
        VideoQuality::Custom(own, cmp) => {
            let marks = eligibility(formats, &options.filter, own);
            let before = |x: &VideoFormat, y: &VideoFormat| -> (b: bool)
                requires
                    call_requires(cmp, (x, y)),
                ensures
                    exists|o: Ordering|
                        call_ensures(cmp, (x, y), o) && b == leads(
                            o,
                            compare_formats(Ranking::General, *x, *y) < 0,
                        ),
                {
                    let o = cmp(x, y);
                    leads_by(o, rank_order(Ranking::General, x, y) < 0)
                };
            proof {
                if order_decided(options.quality, formats@) {
                    assert forall|i: int, j: int, b: bool|
                        0 <= i < formats@.len() && 0 <= j < formats@.len() && call_ensures(
                            before,
                            (&#[trigger] formats@[i], &#[trigger] formats@[j]),
                            b,
                        ) implies b == order(formats@[i], formats@[j]) by {
                        let o = choose|o: Ordering|
                            call_ensures(cmp, (&formats@[i], &formats@[j]), o) && b == leads(
                                o,
                                compare_formats(Ranking::General, formats@[i], formats@[j]) < 0,
                            );
                        assert(call_ensures(*cmp, (&formats@[i], &formats@[j]), o));
                        assert(o == custom_order(*cmp, formats@[i], formats@[j]));
                    }
                    assert(follows(before, order, formats@));
                }
            }
            scan(formats, &marks, true, before, Ghost(accept), Ghost(order))
        },
    };
    pick(formats, at)
}

/// No format is selected exactly where none stays in the selection: only
/// then does a choice end in `FormatNotFound`.
pub proof fn lemma_nothing_selected_iff_nothing_eligible<
    P: Fn(&VideoFormat) -> bool,
    C: Fn(&VideoFormat, &VideoFormat) -> Ordering,
>(formats: Seq<VideoFormat>, options: VideoOptions<P, C>)
    ensures
        selection(formats, options) is None <==> forall|j: int|
            0 <= j < formats.len() ==> !eligible(
                formats,
                options.filter,
                second_filter(options),
                #[trigger] formats[j],
            ),
{
    lemma_nothing_chosen_iff_nothing_accepted(
        formats,
        takes_first(options.quality),
        |f: VideoFormat| eligible(formats, options.filter, second_filter(options), f),
        |x: VideoFormat, y: VideoFormat| precedes(options.quality, x, y),
    );
}

/// Under the video filter no format is selected among formats that carry
/// audio only and are not live, whatever the quality policy.
pub proof fn lemma_no_video_among_audio_only<
    P: Fn(&VideoFormat) -> bool,
    C: Fn(&VideoFormat, &VideoFormat) -> Ordering,
>(formats: Seq<VideoFormat>, options: VideoOptions<P, C>)
    requires
        options.filter is Video,
        forall|j: int|
            0 <= j < formats.len() ==> {
                &&& !(#[trigger] formats[j]).has_video
                &&& formats[j].has_audio
                &&& !formats[j].is_live
            },
    ensures
        selection(formats, options) is None,
{
    lemma_video_filter_rejects_audio_only::<P>(formats, second_filter(options));
    lemma_nothing_selected_iff_nothing_eligible(formats, options);
}

/// Under every policy but a custom one, what is selected is the earliest of
/// the formats that none ranks before, or for a `Lowest` policy the latest
/// of the formats that rank before none, among those that stay in the
/// selection.
pub proof fn lemma_selected_by_rank<
    P: Fn(&VideoFormat) -> bool,
    C: Fn(&VideoFormat, &VideoFormat) -> Ordering,
>(formats: Seq<VideoFormat>, options: VideoOptions<P, C>)
    requires
        !(options.quality is Custom),
    ensures
        selection(formats, options) matches Some(i) ==> if takes_first(options.quality) {
            is_first_of_the_best(
                formats,
                |f: VideoFormat| eligible(formats, options.filter, second_filter(options), f),
                |x: VideoFormat, y: VideoFormat| precedes(options.quality, x, y),
                i,
            )
        } else {
            is_last_of_the_worst(
                formats,
                |f: VideoFormat| eligible(formats, options.filter, second_filter(options), f),
                |x: VideoFormat, y: VideoFormat| precedes(options.quality, x, y),
                i,
            )
        },
{
    let order = |x: VideoFormat, y: VideoFormat| precedes(options.quality, x, y);
    let by = match options.quality {
        VideoQuality::HighestAudio | VideoQuality::LowestAudio => Ranking::Audio,
        VideoQuality::HighestVideo | VideoQuality::LowestVideo => Ranking::Video,
        _ => Ranking::General,
    };
    lemma_rankings_are_rankings(by);
    assert(order =~= (|x: VideoFormat, y: VideoFormat| ranked_before(by, x, y)));
    lemma_chosen_in_a_ranking(
        formats,
        takes_first(options.quality),
        |f: VideoFormat| eligible(formats, options.filter, second_filter(options), f),
        order,
    );
}

} // verus!
