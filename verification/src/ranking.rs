//! The ranking of formats: the keys by which two formats are compared, and
//! the three orders made of them.

use crate::format::VideoFormat;
use crate::number::{leading_integer, parse_bounded, parse_leading_integer, parse_unsigned};
use crate::text::{append, contains_bytes, contains_str};
use vstd::prelude::*;
use vstd::string::*;
use vstd::utf8::*;

verus! {

/// The texts of `parts` with `sep` between each two.
pub open spec fn joined(parts: Seq<Seq<u8>>, sep: Seq<u8>) -> Seq<u8>
    decreases parts.len(),
{
    if parts.len() == 0 {
        Seq::empty()
    } else if parts.len() == 1 {
        parts[0]
    } else {
        joined(parts.drop_last(), sep) + sep + parts.last()
    }
}

/// The bytes of each text of a list.
pub open spec fn texts_bytes(texts: Seq<String>) -> Seq<Seq<u8>> {
    texts.map_values(|t: String| encode_utf8(t@))
}

/// The codecs of a format as one text, a comma and a space between each two.
pub open spec fn codec_text(f: VideoFormat) -> Seq<u8> {
    joined(texts_bytes(f.mime_type.codecs@), ", ".spec_bytes())
}

/// The video encodings, from the least preferred to the most.
pub open spec fn video_encodings() -> Seq<Seq<u8>> {
    seq![
        "mp4v".spec_bytes(),
        "avc1".spec_bytes(),
        "Sorenson H.283".spec_bytes(),
        "MPEG-4 Visual".spec_bytes(),
        "VP8".spec_bytes(),
        "VP9".spec_bytes(),
        "H.264".spec_bytes(),
    ]
}

/// The audio encodings, from the least preferred to the most.
pub open spec fn audio_encodings() -> Seq<Seq<u8>> {
    seq![
        "mp4a".spec_bytes(),
        "mp3".spec_bytes(),
        "vorbis".spec_bytes(),
        "aac".spec_bytes(),
        "opus".spec_bytes(),
        "flac".spec_bytes(),
    ]
}

/// The place, from `from` on, of the first of `encodings` that occurs in
/// `text`; -1 where none does.
pub open spec fn encoding_rank_from(text: Seq<u8>, encodings: Seq<Seq<u8>>, from: int) -> int
    decreases encodings.len() - from,
{
    if from < 0 || from >= encodings.len() {
        -1
    } else if contains_bytes(text, encodings[from]) {
        from
    } else {
        encoding_rank_from(text, encodings, from + 1)
    }
}

/// The place in `encodings` of the first of them that occurs in `text`; -1
/// where none does, which ranks such a text last.
pub open spec fn encoding_rank(text: Seq<u8>, encodings: Seq<Seq<u8>>) -> int {
    encoding_rank_from(text, encodings, 0)
}

/// 1 for a flag that is set, 0 for one that is not.
pub open spec fn flag(b: bool) -> int {
    if b {
        1
    } else {
        0
    }
}

/// The number that the quality label of a format starts with; 0 where it has
/// no label or the label starts with no number.
pub open spec fn quality_number(f: VideoFormat) -> int {
    match f.quality_label {
        Some(label) => leading_integer(encode_utf8(label@)),
        None => 0,
    }
}

/// Whether the content length of a format is known and more than zero.
pub open spec fn has_content(f: VideoFormat) -> bool {
    match f.content_length {
        Some(length) => match parse_unsigned(encode_utf8(length@), u64::MAX as int) {
            Some(v) => v > 0,
            None => false,
        },
        None => false,
    }
}

/// The audio bitrate of a format; 0 where it has none.
pub open spec fn audio_bitrate_or_zero(f: VideoFormat) -> int {
    match f.audio_bitrate {
        Some(v) => v as int,
        None => 0,
    }
}

/// The keys of the general ranking, the most significant first.
pub open spec fn general_keys(f: VideoFormat) -> Seq<int> {
    seq![
        flag(f.is_hls),
        flag(f.is_dash_mpd),
        flag(f.has_video && f.has_audio),
        flag(f.has_video),
        flag(has_content(f)),
        quality_number(f),
        f.bitrate as int,
        audio_bitrate_or_zero(f),
        encoding_rank(codec_text(f), video_encodings()),
        encoding_rank(codec_text(f), audio_encodings()),
    ]
}

/// The keys of the video ranking, the most significant first.
pub open spec fn video_keys(f: VideoFormat) -> Seq<int> {
    seq![quality_number(f), f.bitrate as int, encoding_rank(codec_text(f), video_encodings())]
}

/// The keys of the audio ranking, the most significant first.
pub open spec fn audio_keys(f: VideoFormat) -> Seq<int> {
    seq![audio_bitrate_or_zero(f), encoding_rank(codec_text(f), audio_encodings())]
}

/// One of the three rankings.
#[derive(Clone, Copy, Debug, PartialEq, Eq)]
pub enum Ranking {
    General,
    Video,
    Audio,
}

/// The keys of `f` in the ranking `by`.
pub open spec fn keys_of(by: Ranking, f: VideoFormat) -> Seq<int> {
    match by {
        Ranking::General => general_keys(f),
        Ranking::Video => video_keys(f),
        Ranking::Audio => audio_keys(f),
    }
}

/// How two lists of keys compare, the greater key first: -1 where the first
/// difference has the greater key in `a`, 1 where it has it in `b`, 0 where
/// the lists do not differ in what both hold.
pub open spec fn compare_keys(a: Seq<int>, b: Seq<int>) -> int
    decreases a.len(),
{
    if a.len() == 0 || b.len() == 0 {
        0
    } else if a[0] > b[0] {
        -1
    } else if a[0] < b[0] {
        1
    } else {
        compare_keys(a.drop_first(), b.drop_first())
    }
}

/// How two formats compare in the ranking `by`: -1 where `a` ranks before
/// `b`, 1 where it ranks after, 0 where they rank alike.
pub open spec fn compare_formats(by: Ranking, a: VideoFormat, b: VideoFormat) -> int {
    compare_keys(keys_of(by, a), keys_of(by, b))
}

/// The codecs of a format as one text.
fn codec_string(f: &VideoFormat) -> (r: String)
    ensures
        encode_utf8(r@) == codec_text(*f),
{
    let codecs = &f.mime_type.codecs;
    let mut text = String::new();
    let mut i: usize = 0;
    assert(texts_bytes(codecs@).subrange(0, 0) =~= Seq::<Seq<u8>>::empty());
    while i < codecs.len()
        invariant
            codecs == &f.mime_type.codecs,
            i <= codecs.len(),
            encode_utf8(text@) == joined(
                texts_bytes(codecs@).subrange(0, i as int),
                ", ".spec_bytes(),
            ),
        decreases codecs.len() - i,
    {
        let ghost before = texts_bytes(codecs@).subrange(0, i as int);
        let ghost after = texts_bytes(codecs@).subrange(0, i + 1);
        assert(after.drop_last() =~= before);
        assert(after.last() == encode_utf8(codecs@[i as int]@));
        if i > 0 {
            append(&mut text, ", ");
        }
        append(&mut text, codecs[i].as_str());
        proof {
            if i == 0 {
                assert(encode_utf8(text@) =~= after[0]);
            }
        }
        i += 1;
    }
    assert(texts_bytes(codecs@).subrange(0, codecs.len() as int) =~= texts_bytes(codecs@));
    text
}

/// The name of a video encoding by its place.
fn video_encoding(i: usize) -> (r: &'static str)
    requires
        i < 7,
    ensures
        r.spec_bytes() == video_encodings()[i as int],
{
    if i == 0 {
        "mp4v"
    } else if i == 1 {
        "avc1"
    } else if i == 2 {
        "Sorenson H.283"
    } else if i == 3 {
        "MPEG-4 Visual"
    } else if i == 4 {
        "VP8"
    } else if i == 5 {
        "VP9"
    } else {
        "H.264"
    }
}

/// The name of an audio encoding by its place.
fn audio_encoding(i: usize) -> (r: &'static str)
    requires
        i < 6,
    ensures
        r.spec_bytes() == audio_encodings()[i as int],
{
    if i == 0 {
        "mp4a"
    } else if i == 1 {
        "mp3"
    } else if i == 2 {
        "vorbis"
    } else if i == 3 {
        "aac"
    } else if i == 4 {
        "opus"
    } else {
        "flac"
    }
}

fn video_encoding_rank(f: &VideoFormat) -> (r: i128)
    ensures
        r == encoding_rank(codec_text(*f), video_encodings()),
{
    let text = codec_string(f);
    let mut i: usize = 0;
    while i < 7
        invariant
            i <= 7,
            video_encodings().len() == 7,
            encode_utf8(text@) == codec_text(*f),
            encoding_rank_from(codec_text(*f), video_encodings(), i as int) == encoding_rank(
                codec_text(*f),
                video_encodings(),
            ),
        decreases 7 - i,
    {
        if contains_str(text.as_str(), video_encoding(i)) {
            return i as i128;
        }
        i += 1;
    }
    -1
}

fn audio_encoding_rank(f: &VideoFormat) -> (r: i128)
    ensures
        r == encoding_rank(codec_text(*f), audio_encodings()),
{
    let text = codec_string(f);
    let mut i: usize = 0;
    while i < 6
        invariant
            i <= 6,
            audio_encodings().len() == 6,
            encode_utf8(text@) == codec_text(*f),
            encoding_rank_from(codec_text(*f), audio_encodings(), i as int) == encoding_rank(
                codec_text(*f),
                audio_encodings(),
            ),
        decreases 6 - i,
    {
        if contains_str(text.as_str(), audio_encoding(i)) {
            return i as i128;
        }
        i += 1;
    }
    -1
}

fn flag_value(b: bool) -> (r: i128)
    ensures
        r == flag(b),
{
    if b {
        1
    } else {
        0
    }
}

fn quality_value(f: &VideoFormat) -> (r: i128)
    ensures
        r == quality_number(*f),
{
    match &f.quality_label {
        Some(label) => parse_leading_integer(label.as_str().as_bytes()) as i128,
        None => 0,
    }
}

fn content_known(f: &VideoFormat) -> (r: bool)
    ensures
        r == has_content(*f),
{
    match &f.content_length {
        Some(length) => match parse_bounded(length.as_str().as_bytes(), u64::MAX) {
            Some(v) => v > 0,
            None => false,
        },
        None => false,
    }
}

fn audio_bitrate_value(f: &VideoFormat) -> (r: i128)
    ensures
        r == audio_bitrate_or_zero(*f),
{
    match f.audio_bitrate {
        Some(v) => v as i128,
        None => 0,
    }
}

/// The number of keys of a ranking.
pub fn key_count(by: Ranking) -> (n: usize)
    ensures
        forall|f: VideoFormat| #[trigger] keys_of(by, f).len() == n,
        n <= 10,
{
    match by {
        Ranking::General => 10,
        Ranking::Video => 3,
        Ranking::Audio => 2,
    }
}

/// The key of `f` at place `i` of the ranking `by`.
pub fn key_at(by: Ranking, f: &VideoFormat, i: usize) -> (k: i128)
    requires
        i < keys_of(by, *f).len(),
    ensures
        k == keys_of(by, *f)[i as int],
{
    match by {
        Ranking::General => {
            if i == 0 {
                flag_value(f.is_hls)
            } else if i == 1 {
                flag_value(f.is_dash_mpd)
            } else if i == 2 {
                flag_value(f.has_video && f.has_audio)
            } else if i == 3 {
                flag_value(f.has_video)
            } else if i == 4 {
                flag_value(content_known(f))
            } else if i == 5 {
                quality_value(f)
            } else if i == 6 {
                f.bitrate as i128
            } else if i == 7 {
                audio_bitrate_value(f)
            } else if i == 8 {
                video_encoding_rank(f)
            } else {
                audio_encoding_rank(f)
            }
        },
        Ranking::Video => {
            if i == 0 {
                quality_value(f)
            } else if i == 1 {
                f.bitrate as i128
            } else {
                video_encoding_rank(f)
            }
        },
        Ranking::Audio => {
            if i == 0 {
                audio_bitrate_value(f)
            } else {
                audio_encoding_rank(f)
            }
        },
    }
}

/// Lists of keys that agree place by place compare as alike.
pub proof fn lemma_compare_alike(a: Seq<int>, b: Seq<int>)
    requires
        a.len() == b.len(),
        forall|i: int| 0 <= i < a.len() ==> a[i] == b[i],
    ensures
        compare_keys(a, b) == 0,
    decreases a.len(),
{
    if a.len() > 0 {
        lemma_compare_alike(a.drop_first(), b.drop_first());
    }
}

/// Lists of keys compare by the first place at which they differ.
pub proof fn lemma_compare_by_first_difference(a: Seq<int>, b: Seq<int>, d: int)
    requires
        0 <= d < a.len(),
        d < b.len(),
        forall|i: int| 0 <= i < d ==> a[i] == b[i],
        a[d] != b[d],
    ensures
        compare_keys(a, b) == (if a[d] > b[d] {
            -1int
        } else {
            1int
        }),
    decreases d,
{
    if d > 0 {
        lemma_compare_by_first_difference(a.drop_first(), b.drop_first(), d - 1);
    }
}

/// Lists of keys that do not compare as alike differ at some place, and what
/// is before that place is alike.
pub proof fn lemma_difference_exists(a: Seq<int>, b: Seq<int>) -> (d: int)
    requires
        compare_keys(a, b) != 0,
    ensures
        0 <= d < a.len(),
        d < b.len(),
        forall|i: int| 0 <= i < d ==> a[i] == b[i],
        a[d] != b[d],
    decreases a.len(),
{
    if a[0] != b[0] {
        0
    } else {
        let d = lemma_difference_exists(a.drop_first(), b.drop_first());
        assert forall|i: int| 0 <= i < d + 1 implies a[i] == b[i] by {
            if i > 0 {
                assert(a.drop_first()[i - 1] == a[i]);
                assert(b.drop_first()[i - 1] == b[i]);
            }
        }
        assert(a.drop_first()[d] == a[d + 1]);
        assert(b.drop_first()[d] == b[d + 1]);
        d + 1
    }
}

/// Compares two formats in the ranking `by`: -1 where `a` ranks before `b`,
/// 1 where it ranks after, 0 where they rank alike.
pub fn rank_order(by: Ranking, a: &VideoFormat, b: &VideoFormat) -> (c: i8)
    ensures
        c == compare_formats(by, *a, *b),
{
    let n = key_count(by);
    let ghost ka = keys_of(by, *a);
    let ghost kb = keys_of(by, *b);
    let mut i: usize = 0;
    while i < n
        invariant
            i <= n,
            ka == keys_of(by, *a),
            kb == keys_of(by, *b),
            ka.len() == n,
            kb.len() == n,
            forall|j: int| 0 <= j < i ==> ka[j] == kb[j],
        decreases n - i,
    {
        let x = key_at(by, a, i);
        let y = key_at(by, b, i);
        if x != y {
            proof {
                lemma_compare_by_first_difference(ka, kb, i as int);
            }
            return if x > y {
                -1
            } else {
                1
            };
        }
        i += 1;
    }
    proof {
        lemma_compare_alike(ka, kb);
    }
    0
}

/// The values of a list of keys as integers.
pub open spec fn as_ints(values: Seq<i32>) -> Seq<int> {
    Seq::new(values.len(), |i: int| values[i] as int)
}

/// `values` holds, for each of the first key functions of `keys`, a value
/// that it may give for `f`.
pub open spec fn keys_may_give<F: Fn(&VideoFormat) -> i32>(
    keys: Seq<F>,
    f: VideoFormat,
    values: Seq<i32>,
) -> bool {
    &&& values.len() <= keys.len()
    &&& forall|i: int| 0 <= i < values.len() ==> call_ensures(keys[i], (&f,), #[trigger] values[i])
}

/// `c` is how `a` and `b` compare by the key functions `keys`, applied in
/// order until one tells them apart: the keys that were computed compare
/// so, and where not all were computed, they did tell them apart.
pub open spec fn compares_by<F: Fn(&VideoFormat) -> i32>(
    keys: Seq<F>,
    a: VideoFormat,
    b: VideoFormat,
    c: int,
) -> bool {
    exists|ka: Seq<i32>, kb: Seq<i32>|
        {
            &&& ka.len() == kb.len()
            &&& #[trigger] keys_may_give(keys, a, ka)
            &&& #[trigger] keys_may_give(keys, b, kb)
            &&& c == compare_keys(as_ints(ka), as_ints(kb))
            &&& (ka.len() == keys.len() || c != 0)
        }
}

/// Where each key function has one value for each of the two formats, the
/// comparison by the key functions is the comparison of those values.
pub proof fn lemma_compares_by_its_keys<F: Fn(&VideoFormat) -> i32>(
    keys: Seq<F>,
    a: VideoFormat,
    b: VideoFormat,
    c: int,
    of_a: Seq<int>,
    of_b: Seq<int>,
)
    requires
        compares_by(keys, a, b, c),
        of_a.len() == keys.len(),
        of_b.len() == keys.len(),
        forall|i: int, k: i32|
            0 <= i < keys.len() && #[trigger] call_ensures(keys[i], (&a,), k) ==> k == of_a[i],
        forall|i: int, k: i32|
            0 <= i < keys.len() && #[trigger] call_ensures(keys[i], (&b,), k) ==> k == of_b[i],
    ensures
        c == compare_keys(of_a, of_b),
{
    let (ka, kb) = choose|ka: Seq<i32>, kb: Seq<i32>|
        {
            &&& ka.len() == kb.len()
            &&& #[trigger] keys_may_give(keys, a, ka)
            &&& #[trigger] keys_may_give(keys, b, kb)
            &&& c == compare_keys(as_ints(ka), as_ints(kb))
            &&& (ka.len() == keys.len() || c != 0)
        };
    assert forall|i: int| 0 <= i < ka.len() implies as_ints(ka)[i] == of_a[i] && as_ints(kb)[i]
        == of_b[i] by {
        assert(call_ensures(keys[i], (&a,), ka[i]));
        assert(call_ensures(keys[i], (&b,), kb[i]));
    }
    if c != 0 {
        let d = lemma_difference_exists(as_ints(ka), as_ints(kb));
        lemma_compare_by_first_difference(as_ints(ka), as_ints(kb), d);
        lemma_compare_by_first_difference(of_a, of_b, d);
    } else {
        assert(as_ints(ka) =~= of_a);
        assert(as_ints(kb) =~= of_b);
    }
}

/// Compares two formats by a list of key functions, the greater key first.
pub fn compare_by<F>(a: &VideoFormat, b: &VideoFormat, keys: &Vec<F>) -> (c: i8) where
    F: Fn(&VideoFormat) -> i32,

    requires
        forall|i: int| 0 <= i < keys.len() ==> call_requires(#[trigger] keys[i], (a,)),
        forall|i: int| 0 <= i < keys.len() ==> call_requires(#[trigger] keys[i], (b,)),
    ensures
        compares_by(keys@, *a, *b, c as int),
{
    let n = keys.len();
    let ghost mut ka: Seq<i32> = Seq::empty();
    let ghost mut kb: Seq<i32> = Seq::empty();
    let mut i: usize = 0;
    while i < n
        invariant
            n == keys.len(),
            i <= n,
            ka.len() == i,
            kb.len() == i,
            keys_may_give(keys@, *a, ka),
            keys_may_give(keys@, *b, kb),
            forall|j: int| 0 <= j < i ==> ka[j] == kb[j],
            forall|i: int| 0 <= i < keys.len() ==> call_requires(#[trigger] keys[i], (a,)),
            forall|i: int| 0 <= i < keys.len() ==> call_requires(#[trigger] keys[i], (b,)),
        decreases n - i,
    {
        let x: i32 = (keys[i])(a);
        let y: i32 = (keys[i])(b);
        proof {
            let pa = ka;
            let pb = kb;
            ka = ka.push(x);
            kb = kb.push(y);
            assert forall|j: int| 0 <= j < ka.len() implies call_ensures(
                keys@[j],
                (a,),
                #[trigger] ka[j],
            ) by {
                if j < i {
                    assert(pa[j] == ka[j]);
                }
            }
            assert forall|j: int| 0 <= j < kb.len() implies call_ensures(
                keys@[j],
                (b,),
                #[trigger] kb[j],
            ) by {
                if j < i {
                    assert(pb[j] == kb[j]);
                }
            }
        }
        if x != y {
            let c: i8 = if x > y {
                -1
            } else {
                1
            };
            proof {
                lemma_compare_by_first_difference(as_ints(ka), as_ints(kb), i as int);
                assert(keys_may_give(keys@, *a, ka));
                assert(keys_may_give(keys@, *b, kb));
                assert(c == compare_keys(as_ints(ka), as_ints(kb)));
            }
            return c;
        }
        i += 1;
    }
    proof {
        lemma_compare_alike(as_ints(ka), as_ints(kb));
        assert(keys_may_give(keys@, *a, ka));
        assert(keys_may_give(keys@, *b, kb));
    }
    0
}

} // verus!
