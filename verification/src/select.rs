//! Format selection: which formats are candidates under a capability filter,
//! and which candidate leads, or trails, in an order.

use crate::format::{VideoError, VideoFormat, VideoSearchOptions};
use crate::ranking::{compare_formats, rank_order, Ranking};
use vstd::prelude::*;

verus! {

/// What a capability filter asks of a format that is not live. Of a custom
/// filter it is `verdict`, the answer of its predicate.
pub open spec fn capability<P>(options: VideoSearchOptions<P>, f: VideoFormat, verdict: bool) -> bool {
    match options {
        VideoSearchOptions::VideoAudio => f.has_video && f.has_audio,
        VideoSearchOptions::Video => f.has_video && !f.has_audio,
        VideoSearchOptions::Audio => !f.has_video && f.has_audio,
        VideoSearchOptions::Custom(_) => verdict,
    }
}

/// The answer of a custom filter's predicate for `f`.
pub open spec fn verdict_of<P: Fn(&VideoFormat) -> bool>(
    options: VideoSearchOptions<P>,
    f: VideoFormat,
) -> bool {
    match options {
        VideoSearchOptions::Custom(p) => choose|b: bool| call_ensures(p, (&f,), b),
        _ => false,
    }
}

/// Whether `f` is a candidate under `options`: it is live, or it is what the
/// filter asks for.
pub open spec fn passes<P: Fn(&VideoFormat) -> bool>(
    options: VideoSearchOptions<P>,
    f: VideoFormat,
) -> bool {
    f.is_live || capability(options, f, verdict_of(options, f))
}

/// The predicate of a custom filter can be called on `f`.
pub open spec fn can_ask<P: Fn(&VideoFormat) -> bool>(
    options: VideoSearchOptions<P>,
    f: VideoFormat,
) -> bool {
    match options {
        VideoSearchOptions::Custom(p) => call_requires(p, (&f,)),
        _ => true,
    }
}

/// The predicate of a custom filter has one answer for `f`.
pub open spec fn one_answer<P: Fn(&VideoFormat) -> bool>(
    options: VideoSearchOptions<P>,
    f: VideoFormat,
) -> bool {
    match options {
        VideoSearchOptions::Custom(p) => forall|b1: bool, b2: bool|
            call_ensures(p, (&f,), b1) && call_ensures(p, (&f,), b2) ==> b1 == b2,
        _ => true,
    }
}

/// The predicate of a custom filter can be called on each of `formats`.
pub open spec fn can_ask_all<P: Fn(&VideoFormat) -> bool>(
    options: VideoSearchOptions<P>,
    formats: Seq<VideoFormat>,
) -> bool {
    forall|i: int| 0 <= i < formats.len() ==> can_ask(options, #[trigger] formats[i])
}

/// The predicate of a custom filter has one answer for each of `formats`.
pub open spec fn decided<P: Fn(&VideoFormat) -> bool>(
    options: VideoSearchOptions<P>,
    formats: Seq<VideoFormat>,
) -> bool {
    forall|i: int| 0 <= i < formats.len() ==> one_answer(options, #[trigger] formats[i])
}

/// The predicate has an answer for `f`.
pub open spec fn has_answer<P: Fn(&VideoFormat) -> bool>(predicate: P, f: VideoFormat) -> bool {
    exists|b: bool| call_ensures(predicate, (&f,), b)
}

/// A custom predicate whose every answer is what `answer` says, and which
/// has an answer for each of `formats`, has one answer for each: then the
/// candidates are the live formats and those of which `answer` holds.
pub proof fn lemma_predicate_with_one_answer<P: Fn(&VideoFormat) -> bool>(
    predicate: P,
    answer: spec_fn(VideoFormat) -> bool,
    formats: Seq<VideoFormat>,
)
    requires
        forall|f: VideoFormat, b: bool| #[trigger]
            call_ensures(predicate, (&f,), b) ==> b == answer(f),
        forall|i: int| 0 <= i < formats.len() ==> has_answer(predicate, #[trigger] formats[i]),
    ensures
        decided(VideoSearchOptions::Custom(predicate), formats),
        forall|i: int|
            0 <= i < formats.len() ==> passes(
                VideoSearchOptions::Custom(predicate),
                #[trigger] formats[i],
            ) == (formats[i].is_live || answer(formats[i])),
{
    assert forall|i: int| 0 <= i < formats.len() implies passes(
        VideoSearchOptions::Custom(predicate),
        #[trigger] formats[i],
    ) == (formats[i].is_live || answer(formats[i])) by {
        let f = formats[i];
        let b = choose|b: bool| call_ensures(predicate, (&f,), b);
        assert(call_ensures(predicate, (&f,), b));
    }
}

/// The candidates among `formats` under `options`, in their order.
pub open spec fn candidates<P: Fn(&VideoFormat) -> bool>(
    formats: Seq<VideoFormat>,
    options: VideoSearchOptions<P>,
) -> Seq<VideoFormat>
    decreases formats.len(),
{
    if formats.len() == 0 {
        Seq::empty()
    } else if passes(options, formats.last()) {
        candidates(formats.drop_last(), options).push(formats.last())
    } else {
        candidates(formats.drop_last(), options)
    }
}

/// Whether `f` is a candidate under `options`.
pub fn keeps<P>(options: &VideoSearchOptions<P>, f: &VideoFormat) -> (r: bool) where
    P: Fn(&VideoFormat) -> bool,

    requires
        can_ask(*options, *f),
    ensures
        one_answer(*options, *f) ==> r == passes(*options, *f),
        f.is_live ==> r,
{
    if f.is_live {
        return true;
    }
    match options {
        VideoSearchOptions::VideoAudio => f.has_video && f.has_audio,
        VideoSearchOptions::Video => f.has_video && !f.has_audio,
        VideoSearchOptions::Audio => !f.has_video && f.has_audio,
        VideoSearchOptions::Custom(p) => {
            let verdict = p(f);
            assert(call_ensures(*p, (f,), verdict));
            verdict
        },
    }
}

/// Keeps of `formats` the candidates under `options`: the formats that the
/// filter asks for, and every live format.
pub fn filter_formats<P>(formats: &mut Vec<VideoFormat>, options: &VideoSearchOptions<P>) where
    P: Fn(&VideoFormat) -> bool,

    requires
        can_ask_all(*options, old(formats)@),
    ensures
        decided(*options, old(formats)@) ==> final(formats)@ == candidates(
            old(formats)@,
            *options,
        ),
        final(formats)@.len() <= old(formats)@.len(),
{
    let ghost before = formats@;
    let ghost mut done: int = 0;
    let mut i: usize = 0;
    assert(before.subrange(0, 0) =~= Seq::<VideoFormat>::empty());
    assert(formats@ =~= Seq::<VideoFormat>::empty() + before.subrange(0, before.len() as int));
    while i < formats.len()
        invariant
            0 <= done <= before.len(),
            i <= formats.len(),
            i <= done,
            formats.len() - i == before.len() - done,
            formats@.subrange(i as int, formats.len() as int) == before.subrange(
                done,
                before.len() as int,
            ),
            can_ask_all(*options, before),
            decided(*options, before) ==> formats@.subrange(0, i as int) == candidates(
                before.subrange(0, done),
                *options,
            ),
        decreases formats.len() - i,
    {
        let ghost current = formats@;
        let ghost x = before[done];
        assert(current.subrange(i as int, current.len() as int)[0] == current[i as int]);
        assert(before.subrange(done, before.len() as int)[0] == x);
        assert(before.subrange(0, done + 1).drop_last() =~= before.subrange(0, done));
        assert(before.subrange(0, done + 1).last() == x);
        if keeps(options, &formats[i]) {
            assert(current.subrange(0, i + 1) =~= current.subrange(0, i as int).push(x));
            assert(current.subrange(i + 1, current.len() as int) =~= before.subrange(
                done + 1,
                before.len() as int,
            )) by {
                assert(current.subrange(i + 1, current.len() as int) =~= current.subrange(
                    i as int,
                    current.len() as int,
                ).drop_first());
                assert(before.subrange(done + 1, before.len() as int) =~= before.subrange(
                    done,
                    before.len() as int,
                ).drop_first());
            }
            i += 1;
        } else {
            formats.remove(i);
            assert(formats@.subrange(0, i as int) =~= current.subrange(0, i as int));
            assert(formats@.subrange(i as int, formats.len() as int) =~= before.subrange(
                done + 1,
                before.len() as int,
            )) by {
                assert(formats@.subrange(i as int, formats.len() as int) =~= current.subrange(
                    i as int,
                    current.len() as int,
                ).drop_first());
                assert(before.subrange(done + 1, before.len() as int) =~= before.subrange(
                    done,
                    before.len() as int,
                ).drop_first());
            }
        }
        proof {
            done = done + 1;
        }
    }
    assert(before.subrange(0, before.len() as int) =~= before);
    assert(formats@.subrange(0, formats.len() as int) =~= formats@);
}

/// Some candidate among `formats` under `filter` is an HLS format.
pub open spec fn any_hls<P: Fn(&VideoFormat) -> bool>(
    formats: Seq<VideoFormat>,
    filter: VideoSearchOptions<P>,
) -> bool {
    exists|i: int|
        0 <= i < formats.len() && passes(filter, #[trigger] formats[i]) && formats[i].is_hls
}

/// Whether `f` stays in the selection among `formats`: it is a candidate
/// under `filter`; where a candidate is an HLS format, it is an HLS format
/// or live; and it is a candidate under `second`, the filter of the quality
/// policy.
pub open spec fn eligible<P: Fn(&VideoFormat) -> bool>(
    formats: Seq<VideoFormat>,
    filter: VideoSearchOptions<P>,
    second: VideoSearchOptions<P>,
    f: VideoFormat,
) -> bool {
    &&& passes(filter, f)
    &&& any_hls(formats, filter) ==> f.is_hls || f.is_live
    &&& passes(second, f)
}

/// The place of the format that comes first when the formats of the first
/// `n` places that `accept` holds of are put in the order `before`, formats
/// that neither is before the other staying as they are: going through the
/// places, a format takes the lead from the leader where it is before it.
pub open spec fn leader(
    formats: Seq<VideoFormat>,
    n: int,
    accept: spec_fn(VideoFormat) -> bool,
    before: spec_fn(VideoFormat, VideoFormat) -> bool,
) -> Option<int>
    decreases n,
{
    if n <= 0 {
        None
    } else if !accept(formats[n - 1]) {
        leader(formats, n - 1, accept, before)
    } else {
        match leader(formats, n - 1, accept, before) {
            Some(l) => if before(formats[n - 1], formats[l]) {
                Some(n - 1)
            } else {
                Some(l)
            },
            None => Some(n - 1),
        }
    }
}

/// The place of the format that comes last in that order: going through the
/// places, a format falls behind the last one unless it is before it.
pub open spec fn trailer(
    formats: Seq<VideoFormat>,
    n: int,
    accept: spec_fn(VideoFormat) -> bool,
    before: spec_fn(VideoFormat, VideoFormat) -> bool,
) -> Option<int>
    decreases n,
{
    if n <= 0 {
        None
    } else if !accept(formats[n - 1]) {
        trailer(formats, n - 1, accept, before)
    } else {
        match trailer(formats, n - 1, accept, before) {
            Some(t) => if before(formats[n - 1], formats[t]) {
                Some(t)
            } else {
                Some(n - 1)
            },
            None => Some(n - 1),
        }
    }
}

/// The place of the first, or of the last, of the accepted formats in the
/// order `before`. `None` when none is accepted.
pub open spec fn chosen(
    formats: Seq<VideoFormat>,
    first: bool,
    accept: spec_fn(VideoFormat) -> bool,
    before: spec_fn(VideoFormat, VideoFormat) -> bool,
) -> Option<int> {
    if first {
        leader(formats, formats.len() as int, accept, before)
    } else {
        trailer(formats, formats.len() as int, accept, before)
    }
}

/// A place as an integer.
pub open spec fn place(i: Option<usize>) -> Option<int> {
    match i {
        Some(i) => Some(i as int),
        None => None,
    }
}

/// What is chosen is a place of an accepted format, and none is chosen only
/// where none is accepted.
pub proof fn lemma_chosen_is_accepted(
    formats: Seq<VideoFormat>,
    n: int,
    accept: spec_fn(VideoFormat) -> bool,
    before: spec_fn(VideoFormat, VideoFormat) -> bool,
)
    requires
        0 <= n <= formats.len(),
    ensures
        match leader(formats, n, accept, before) {
            Some(i) => 0 <= i < n && accept(formats[i]),
            None => forall|j: int| 0 <= j < n ==> !accept(#[trigger] formats[j]),
        },
        match trailer(formats, n, accept, before) {
            Some(i) => 0 <= i < n && accept(formats[i]),
            None => forall|j: int| 0 <= j < n ==> !accept(#[trigger] formats[j]),
        },
    decreases n,
{
    if n > 0 {
        lemma_chosen_is_accepted(formats, n - 1, accept, before);
    }
}

/// The comparison `before` can be called on each two of `formats`.
pub open spec fn can_compare_all<B: Fn(&VideoFormat, &VideoFormat) -> bool>(
    before: B,
    formats: Seq<VideoFormat>,
) -> bool {
    forall|i: int, j: int|
        0 <= i < formats.len() && 0 <= j < formats.len() ==> call_requires(
            before,
            (&#[trigger] formats[i], &#[trigger] formats[j]),
        )
}

/// The comparison `before` gives, for each two of `formats`, what `rel`
/// says.
pub open spec fn follows<B: Fn(&VideoFormat, &VideoFormat) -> bool>(
    before: B,
    rel: spec_fn(VideoFormat, VideoFormat) -> bool,
    formats: Seq<VideoFormat>,
) -> bool {
    forall|i: int, j: int, b: bool|
        0 <= i < formats.len() && 0 <= j < formats.len() && call_ensures(
            before,
            (&#[trigger] formats[i], &#[trigger] formats[j]),
            b,
        ) ==> b == rel(formats[i], formats[j])
}

/// `marks` says of each of `formats` whether `accept` holds of it.
pub open spec fn marks_follow(
    marks: Seq<bool>,
    accept: spec_fn(VideoFormat) -> bool,
    formats: Seq<VideoFormat>,
) -> bool {
    &&& marks.len() == formats.len()
    &&& forall|i: int| 0 <= i < formats.len() ==> #[trigger] marks[i] == accept(formats[i])
}

/// Goes through the marked formats and finds the one that comes first, or
/// last, in the order that `before` computes.
pub(crate) fn scan<B>(
    formats: &[VideoFormat],
    marks: &Vec<bool>,
    first: bool,
    before: B,
    Ghost(accept): Ghost<spec_fn(VideoFormat) -> bool>,
    Ghost(rel): Ghost<spec_fn(VideoFormat, VideoFormat) -> bool>,
) -> (r: Option<usize>) where B: Fn(&VideoFormat, &VideoFormat) -> bool
    requires
        marks.len() == formats.len(),
        can_compare_all(before, formats@),
    ensures
        r matches Some(i) ==> i < formats.len(),
        marks_follow(marks@, accept, formats@) && follows(before, rel, formats@) ==> place(r)
            == chosen(formats@, first, accept, rel),
{
    let n = formats.len();
    let mut best: Option<usize> = None;
    let mut i: usize = 0;
    while i < n
        invariant
            n == formats.len(),
            marks.len() == n,
            i <= n,
            can_compare_all(before, formats@),
            best matches Some(b) ==> b < i,
            marks_follow(marks@, accept, formats@) && follows(before, rel, formats@) ==> place(
                best,
            ) == (if first {
                leader(formats@, i as int, accept, rel)
            } else {
                trailer(formats@, i as int, accept, rel)
            }),
        decreases n - i,
    {
        if marks[i] {
            match best {
                None => {
                    best = Some(i);
                },
                Some(b) => {
                    let ahead = before(&formats[i], &formats[b]);
                    if ahead == first {
                        best = Some(i);
                    }
                },
            }
        }
        i += 1;
    }
    best
}

/// Says of each of `formats` whether it stays in the selection.
pub fn eligibility<P>(
    formats: &[VideoFormat],
    filter: &VideoSearchOptions<P>,
    second: &VideoSearchOptions<P>,
) -> (marks: Vec<bool>) where P: Fn(&VideoFormat) -> bool
    requires
        can_ask_all(*filter, formats@),
        can_ask_all(*second, formats@),
    ensures
        marks.len() == formats.len(),
        decided(*filter, formats@) && decided(*second, formats@) ==> forall|i: int|
            0 <= i < formats.len() ==> #[trigger] marks[i] == eligible(
                formats@,
                *filter,
                *second,
                formats[i],
            ),
{
    let n = formats.len();
    let mut hls = false;
    let mut i: usize = 0;
    while i < n
        invariant
            n == formats.len(),
            i <= n,
            can_ask_all(*filter, formats@),
            decided(*filter, formats@) ==> hls == (exists|j: int|
                0 <= j < i && passes(*filter, #[trigger] formats[j]) && formats[j].is_hls),
        decreases n - i,
    {
        if formats[i].is_hls && keeps(filter, &formats[i]) {
            hls = true;
        }
        i += 1;
    }
    let mut marks: Vec<bool> = Vec::new();
    let mut i: usize = 0;
    while i < n
        invariant
            n == formats.len(),
            i <= n,
            marks.len() == i,
            can_ask_all(*filter, formats@),
            can_ask_all(*second, formats@),
            decided(*filter, formats@) ==> hls == any_hls(formats@, *filter),
            decided(*filter, formats@) && decided(*second, formats@) ==> forall|j: int|
                0 <= j < i ==> #[trigger] marks[j] == eligible(
                    formats@,
                    *filter,
                    *second,
                    formats[j],
                ),
        decreases n - i,
    {
        let f = &formats[i];
        let stays = keeps(filter, f) && (!hls || f.is_hls || f.is_live) && keeps(second, f);
        marks.push(stays);
        i += 1;
    }
    marks
}

/// A copy of the format at the place chosen; without a place, the error
/// that says that no format was found.
pub fn pick(formats: &[VideoFormat], at: Option<usize>) -> (r: Result<VideoFormat, VideoError>)
    requires
        at matches Some(i) ==> i < formats.len(),
    ensures
        match place(at) {
            Some(i) => r matches Ok(f) && f@ == formats[i]@,
            None => r == Err::<VideoFormat, VideoError>(VideoError::FormatNotFound),
        },
{
    match at {
        Some(i) => Ok(formats[i].duplicate()),
        None => Err(VideoError::FormatNotFound),
    }
}

/// Whether `x` is before `y` in the ranking `by`, the general ranking
/// deciding between formats that `by` ranks alike.
pub open spec fn ranked_before(by: Ranking, x: VideoFormat, y: VideoFormat) -> bool {
    let c = compare_formats(by, x, y);
    c < 0 || (c == 0 && compare_formats(Ranking::General, x, y) < 0)
}

/// Whether `x` is before `y` in the ranking `by`, then in the general one.
pub fn is_ranked_before(by: Ranking, x: &VideoFormat, y: &VideoFormat) -> (r: bool)
    ensures
        r == ranked_before(by, *x, *y),
{
    let c = rank_order(by, x, y);
    c < 0 || (c == 0 && rank_order(Ranking::General, x, y) < 0)
}

/// The first, or the last, in the ranking `by` of the formats that stay in
/// the selection under `filter` and `second`.
pub fn choose_ranked<P>(
    formats: &[VideoFormat],
    filter: &VideoSearchOptions<P>,
    second: &VideoSearchOptions<P>,
    by: Ranking,
    first: bool,
) -> (r: Option<usize>) where P: Fn(&VideoFormat) -> bool
    requires
        can_ask_all(*filter, formats@),
        can_ask_all(*second, formats@),
    ensures
        r matches Some(i) ==> i < formats.len(),
        decided(*filter, formats@) && decided(*second, formats@) ==> place(r) == chosen(
            formats@,
            first,
            |f: VideoFormat| eligible(formats@, *filter, *second, f),
            |x: VideoFormat, y: VideoFormat| ranked_before(by, x, y),
        ),
{
    let marks = eligibility(formats, filter, second);
    let before = |x: &VideoFormat, y: &VideoFormat| -> (b: bool)
        ensures
            b == ranked_before(by, *x, *y),
        { is_ranked_before(by, x, y) };
    scan(
        formats,
        &marks,
        first,
        before,
        Ghost(|f: VideoFormat| eligible(formats@, *filter, *second, f)),
        Ghost(|x: VideoFormat, y: VideoFormat| ranked_before(by, x, y)),
    )
}

} // verus!
