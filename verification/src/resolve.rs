//! Format resolution: from the raw records of a video's metadata to formats
//! with a playable address.

use crate::cipher::{decipher, deciphers_to};
use crate::engine::compiled_source;
use crate::format::{copy_text, text_view, MimeType, VideoFormat, VideoFormatView};
use crate::json::Json;
use crate::markers::{dash_url, hls_url, is_dash_url, is_hls_url, is_live_url, live_url};
use crate::mime::{mime_bytes, mime_parts, parse_mime_type};
use crate::ncode::{n_transforms_to, ncode, ValueCache};
use crate::text::{empty_str, seq_of};
use vstd::prelude::*;
use vstd::string::*;
use vstd::utf8::*;

verus! {

/// The three fields of a raw format record that may hold its address: the
/// address itself, or a cipher query string under one of two names.
#[derive(Clone, Debug, PartialEq, Eq)]
pub struct SetDownloadURLValue {
    pub url: Option<String>,
    pub signature_cipher: Option<String>,
    pub cipher: Option<String>,
}

/// A format record as the metadata of a video holds it: every field may be
/// missing.
#[derive(Clone, Debug, PartialEq, Eq)]
pub struct RawFormatEntry {
    pub itag: Option<u64>,
    pub mime_type: Option<MimeType>,
    pub bitrate: Option<u64>,
    pub width: Option<u64>,
    pub height: Option<u64>,
    pub content_length: Option<String>,
    pub quality: Option<String>,
    pub fps: Option<u64>,
    pub quality_label: Option<String>,
    pub audio_quality: Option<String>,
    pub audio_bitrate: Option<u64>,
    pub url: Option<String>,
    pub signature_cipher: Option<String>,
    pub cipher: Option<String>,
    pub has_video: Option<bool>,
    pub has_audio: Option<bool>,
    pub is_live: Option<bool>,
    pub is_hls: Option<bool>,
    pub is_dash_mpd: Option<bool>,
    /// Some member of the record has a type that its field does not take.
    pub malformed: bool,
}

/// The streaming section of a video's metadata: its two lists of format
/// records.
#[derive(Clone, Debug, PartialEq, Eq)]
pub struct StreamingData {
    pub formats: Vec<RawFormatEntry>,
    pub adaptive_formats: Vec<RawFormatEntry>,
}

/// The source of the function at place `i` of `functions`; empty where the
/// list is shorter, which stands for a function that changes nothing.
pub open spec fn source_at(functions: Seq<(String, String)>, i: int) -> Seq<char> {
    if 0 <= i < functions.len() {
        functions[i].1@
    } else {
        Seq::empty()
    }
}

/// The cipher query string of a record without an address:
/// `signature_cipher` before `cipher`, and the empty text without either.
pub open spec fn cipher_text(format: SetDownloadURLValue) -> Seq<char> {
    match format.signature_cipher {
        Some(text) => text@,
        None => match format.cipher {
            Some(text) => text@,
            None => Seq::empty(),
        },
    }
}

/// `address` is what the n-transformer is given for `format`: its address
/// where it has one, else what the cipher transformer makes of its cipher
/// query string.
pub open spec fn starts_from(
    format: SetDownloadURLValue,
    decipher_source: Seq<char>,
    address: Seq<char>,
) -> bool {
    match format.url {
        Some(url) => address == url@,
        None => deciphers_to(cipher_text(format), decipher_source, address),
    }
}

/// `out` is an address that `format` may resolve to with `functions`, and
/// `after` what the resolution may leave of the cache `before`.
pub open spec fn resolves_to(
    format: SetDownloadURLValue,
    functions: Seq<(String, String)>,
    before: Map<Seq<char>, Seq<char>>,
    after: Map<Seq<char>, Seq<char>>,
    out: Seq<char>,
) -> bool {
    exists|address: Seq<char>| #[trigger]
        starts_from(format, source_at(functions, 0), address) && n_transforms_to(
            address,
            source_at(functions, 1),
            before,
            after,
            out,
        )
}

/// A function that changes nothing.
fn no_function() -> (r: (String, String))
    ensures
        r.0@ == Seq::<char>::empty(),
        r.1@ == Seq::<char>::empty(),
{
    (String::new(), String::new())
}

/// Resolves the address of a format record: its own address, or the one in
/// its cipher query string once the decipher function has signed it, with
/// the throttling parameter repaired by the n-transform function. The
/// decipher function is the first of `functions` and the n-transform
/// function the second; one that is missing changes nothing.
pub fn set_download_url<'host>(
    format: &SetDownloadURLValue,
    functions: &Vec<(String, String)>,
    n_transform_cache: &mut ValueCache,
    cipher_cache: &mut Option<(String, boa_engine::Context<'host>)>,
) -> (r: String)
    ensures
        resolves_to(*format, functions@, old(n_transform_cache)@, final(n_transform_cache)@, r@),
        format.url is Some && source_at(functions@, 1).len() == 0 ==> r@ == format.url->0@,
        format.url is Some ==> *final(cipher_cache) == *old(cipher_cache),
        *final(cipher_cache) == *old(cipher_cache) || compiled_source(*final(cipher_cache))
            == Some(source_at(functions@, 0)),
{
    let empty_script = no_function();
    let decipher_script = if functions.len() > 0 {
        &functions[0]
    } else {
        &empty_script
    };
    let n_transform_script = if functions.len() > 1 {
        &functions[1]
    } else {
        &empty_script
    };
    match &format.url {
        Some(url) => {
            let r = ncode(url.as_str(), n_transform_script, n_transform_cache);
            assert(starts_from(*format, source_at(functions@, 0), url@));
            r
        },
        None => {
            let text: &str = match &format.signature_cipher {
                Some(text) => text.as_str(),
                None => match &format.cipher {
                    Some(text) => text.as_str(),
                    None => empty_str(),
                },
            };
            let address = decipher(text, decipher_script, cipher_cache);
            let r = ncode(address.as_str(), n_transform_script, n_transform_cache);
            assert(starts_from(*format, source_at(functions@, 0), address@));
            r
        },
    }
}

/// The address of a record; the empty text where it has none.
pub open spec fn address_text(format: RawFormatEntry) -> Seq<char> {
    match format.url {
        Some(url) => url@,
        None => Seq::empty(),
    }
}

/// Derives what a record carries and what its address tells: video where it
/// has a quality label, audio where it has an audio bitrate or an audio
/// quality, and the three markers of its address.
pub fn add_format_meta(format: &mut RawFormatEntry)
    ensures
        *final(format) == (RawFormatEntry {
            has_video: Some(old(format).quality_label is Some),
            has_audio: Some(old(format).audio_bitrate is Some || old(format).audio_quality is Some),
            is_live: Some(is_live_url(address_text(*old(format)))),
            is_hls: Some(is_hls_url(encode_utf8(address_text(*old(format))))),
            is_dash_mpd: Some(is_dash_url(encode_utf8(address_text(*old(format))))),
            ..*old(format)
        }),
{
    let has_video = format.quality_label.is_some();
    let has_audio = format.audio_bitrate.is_some() || format.audio_quality.is_some();
    let (is_live, is_hls, is_dash_mpd) = match &format.url {
        Some(url) => (live_url(url.as_str()), hls_url(url.as_str()), dash_url(url.as_str())),
        None => {
            let none = empty_str();
            (live_url(none), hls_url(none), dash_url(none))
        },
    };
    format.has_video = Some(has_video);
    format.has_audio = Some(has_audio);
    format.is_live = Some(is_live);
    format.is_hls = Some(is_hls);
    format.is_dash_mpd = Some(is_dash_mpd);
}

/// The format that a record makes once its address is resolved and what it
/// carries is derived. `None` where a field is missing that a format cannot
/// be without: the itag, the media type, the bitrate, the address, or one
/// of the five derived flags; and for a malformed record.
pub open spec fn finished(format: RawFormatEntry) -> Option<VideoFormatView> {
    if !format.malformed && format.itag is Some && format.mime_type is Some && format.bitrate is Some && format.url
        is Some && format.has_video is Some && format.has_audio is Some && format.is_live is Some
        && format.is_hls is Some && format.is_dash_mpd is Some {
        Some(
            VideoFormatView {
                itag: format.itag->0,
                mime_type: format.mime_type->0@,
                bitrate: format.bitrate->0,
                width: format.width,
                height: format.height,
                content_length: text_view(format.content_length),
                quality: text_view(format.quality),
                fps: format.fps,
                quality_label: text_view(format.quality_label),
                audio_quality: text_view(format.audio_quality),
                audio_bitrate: format.audio_bitrate,
                url: format.url->0@,
                has_video: format.has_video->0,
                has_audio: format.has_audio->0,
                is_live: format.is_live->0,
                is_hls: format.is_hls->0,
                is_dash_mpd: format.is_dash_mpd->0,
            },
        )
    } else {
        None
    }
}

/// Makes a format of a record that lacks nothing a format needs.
pub fn finish(format: &RawFormatEntry) -> (r: Option<VideoFormat>)
    ensures
        match r {
            Some(f) => finished(*format) == Some(f@),
            None => finished(*format) is None,
        },
{
    if format.malformed {
        return None;
    }
    match (
        format.itag,
        &format.mime_type,
        format.bitrate,
        &format.url,
        format.has_video,
        format.has_audio,
        format.is_live,
        format.is_hls,
        format.is_dash_mpd,
    ) {
        (
            Some(itag),
            Some(mime_type),
            Some(bitrate),
            Some(url),
            Some(has_video),
            Some(has_audio),
            Some(is_live),
            Some(is_hls),
            Some(is_dash_mpd),
        ) => Some(
            VideoFormat {
                itag,
                mime_type: mime_type.duplicate(),
                bitrate,
                width: format.width,
                height: format.height,
                content_length: copy_text(&format.content_length),
                quality: copy_text(&format.quality),
                fps: format.fps,
                quality_label: copy_text(&format.quality_label),
                audio_quality: copy_text(&format.audio_quality),
                audio_bitrate: format.audio_bitrate,
                url: url.clone(),
                has_video,
                has_audio,
                is_live,
                is_hls,
                is_dash_mpd,
            },
        ),
        _ => None,
    }
}

/// The three address fields of a record.
pub open spec fn address_fields(format: RawFormatEntry) -> SetDownloadURLValue {
    SetDownloadURLValue {
        url: format.url,
        signature_cipher: format.signature_cipher,
        cipher: format.cipher,
    }
}

/// The format that a record makes with the resolved address `url`: the
/// record's descriptive fields, the address, and what is derived from both.
/// `None` where the record is malformed, or has no itag, no media type or
/// no bitrate.
pub open spec fn resolved_format(format: RawFormatEntry, url: Seq<char>) -> Option<
    VideoFormatView,
> {
    if !format.malformed && format.itag is Some && format.mime_type is Some && format.bitrate is Some {
        Some(
            VideoFormatView {
                itag: format.itag->0,
                mime_type: format.mime_type->0@,
                bitrate: format.bitrate->0,
                width: format.width,
                height: format.height,
                content_length: text_view(format.content_length),
                quality: text_view(format.quality),
                fps: format.fps,
                quality_label: text_view(format.quality_label),
                audio_quality: text_view(format.audio_quality),
                audio_bitrate: format.audio_bitrate,
                url,
                has_video: format.quality_label is Some,
                has_audio: format.audio_bitrate is Some || format.audio_quality is Some,
                is_live: is_live_url(url),
                is_hls: is_hls_url(encode_utf8(url)),
                is_dash_mpd: is_dash_url(encode_utf8(url)),
            },
        )
    } else {
        None
    }
}

/// Resolves one record: its address is resolved, its cipher fields are
/// dropped, what it carries is derived, and a format is made of it where it
/// lacks nothing.
pub fn resolve_entry<'host>(
    format: &RawFormatEntry,
    functions: &Vec<(String, String)>,
    n_transform_cache: &mut ValueCache,
    cipher_cache: &mut Option<(String, boa_engine::Context<'host>)>,
) -> (r: Option<VideoFormat>)
    ensures
        exists|url: Seq<char>| #[trigger]
            resolves_to(
                address_fields(*format),
                functions@,
                old(n_transform_cache)@,
                final(n_transform_cache)@,
                url,
            ) && (match r {
                Some(f) => resolved_format(*format, url) == Some(f@),
                None => resolved_format(*format, url) is None,
            }),
{
    let fields = SetDownloadURLValue {
        url: copy_text(&format.url),
        signature_cipher: copy_text(&format.signature_cipher),
        cipher: copy_text(&format.cipher),
    };
    let url = set_download_url(&fields, functions, n_transform_cache, cipher_cache);
    let ghost resolved = url@;
    let mut entry = RawFormatEntry {
        itag: format.itag,
        mime_type: match &format.mime_type {
            Some(m) => Some(m.duplicate()),
            None => None,
        },
        bitrate: format.bitrate,
        width: format.width,
        height: format.height,
        content_length: copy_text(&format.content_length),
        quality: copy_text(&format.quality),
        fps: format.fps,
        quality_label: copy_text(&format.quality_label),
        audio_quality: copy_text(&format.audio_quality),
        audio_bitrate: format.audio_bitrate,
        url: Some(url),
        signature_cipher: None,
        cipher: None,
        has_video: format.has_video,
        has_audio: format.has_audio,
        is_live: format.is_live,
        is_hls: format.is_hls,
        is_dash_mpd: format.is_dash_mpd,
        malformed: format.malformed,
    };
    add_format_meta(&mut entry);
    let r = finish(&entry);
    assert(resolves_to(
        address_fields(*format),
        functions@,
        old(n_transform_cache)@,
        n_transform_cache@,
        resolved,
    ));
    r
}

/// The formats that `entries` make with the resolved addresses `urls`, in
/// their order; an entry that lacks what a format needs makes none.
pub open spec fn collected(entries: Seq<RawFormatEntry>, urls: Seq<Seq<char>>) -> Seq<
    VideoFormatView,
>
    decreases entries.len(),
{
    if entries.len() == 0 || urls.len() != entries.len() {
        Seq::empty()
    } else {
        collected(entries.drop_last(), urls.drop_last()) + seq_of(
            resolved_format(entries.last(), urls.last()),
        )
    }
}

/// `urls` holds an address that each of `entries` may resolve to, one after
/// the other, and `caches` what is remembered before the first, between
/// each two, and after the last.
pub open spec fn resolves_in_turn(
    entries: Seq<RawFormatEntry>,
    functions: Seq<(String, String)>,
    caches: Seq<Map<Seq<char>, Seq<char>>>,
    urls: Seq<Seq<char>>,
) -> bool {
    &&& caches.len() == entries.len() + 1
    &&& urls.len() == entries.len()
    &&& forall|i: int|
        0 <= i < entries.len() ==> resolves_to(
            address_fields(#[trigger] entries[i]),
            functions,
            caches[i],
            caches[i + 1],
            urls[i],
        )
}

/// What each format of a list holds.
pub open spec fn formats_view(formats: Seq<VideoFormat>) -> Seq<VideoFormatView> {
    formats.map_values(|f: VideoFormat| f@)
}

/// The formats of two lists of entries, one after the other, are the
/// formats of the lists put together.
pub proof fn lemma_collected_concat(
    first: Seq<RawFormatEntry>,
    first_urls: Seq<Seq<char>>,
    second: Seq<RawFormatEntry>,
    second_urls: Seq<Seq<char>>,
)
    requires
        first.len() == first_urls.len(),
        second.len() == second_urls.len(),
    ensures
        collected(first + second, first_urls + second_urls) == collected(first, first_urls)
            + collected(second, second_urls),
    decreases second.len(),
{
    if second.len() == 0 {
        assert(first + second =~= first);
        assert(first_urls + second_urls =~= first_urls);
    } else {
        assert((first + second).drop_last() =~= first + second.drop_last());
        assert((first_urls + second_urls).drop_last() =~= first_urls + second_urls.drop_last());
        lemma_collected_concat(first, first_urls, second.drop_last(), second_urls.drop_last());
    }
}

/// Resolves the entries of one list and puts the formats they make after
/// those of `out`.
fn resolve_list<'host>(
    entries: &Vec<RawFormatEntry>,
    functions: &Vec<(String, String)>,
    n_transform_cache: &mut ValueCache,
    cipher_cache: &mut Option<(String, boa_engine::Context<'host>)>,
    out: &mut Vec<VideoFormat>,
) -> (w: Ghost<(Seq<Map<Seq<char>, Seq<char>>>, Seq<Seq<char>>)>)
    ensures
        resolves_in_turn(entries@, functions@, w@.0, w@.1),
        w@.0[0] == old(n_transform_cache)@,
        w@.0.last() == final(n_transform_cache)@,
        formats_view(final(out)@) == formats_view(old(out)@) + collected(entries@, w@.1),
{
    let ghost mut caches: Seq<Map<Seq<char>, Seq<char>>> = seq![n_transform_cache@];
    let ghost mut urls: Seq<Seq<char>> = Seq::empty();
    let ghost before = formats_view(out@);
    let mut i: usize = 0;
    assert(entries@.subrange(0, 0) =~= Seq::<RawFormatEntry>::empty());
    assert(before + collected(entries@.subrange(0, 0), urls) =~= before);
    while i < entries.len()
        invariant
            i <= entries.len(),
            resolves_in_turn(entries@.subrange(0, i as int), functions@, caches, urls),
            caches[0] == old(n_transform_cache)@,
            caches.last() == n_transform_cache@,
            formats_view(out@) == before + collected(entries@.subrange(0, i as int), urls),
        decreases entries.len() - i,
    {
        let ghost done = entries@.subrange(0, i as int);
        let ghost next = entries@.subrange(0, i + 1);
        let ghost seen = formats_view(out@);
        let ghost cache_before = n_transform_cache@;
        let made = resolve_entry(&entries[i], functions, n_transform_cache, cipher_cache);
        proof {
            let url = choose|url: Seq<char>| #[trigger]
                resolves_to(
                    address_fields(entries@[i as int]),
                    functions@,
                    cache_before,
                    n_transform_cache@,
                    url,
                ) && (match made {
                    Some(f) => resolved_format(entries@[i as int], url) == Some(f@),
                    None => resolved_format(entries@[i as int], url) is None,
                });
            let old_caches = caches;
            let old_urls = urls;
            caches = caches.push(n_transform_cache@);
            urls = urls.push(url);
            assert(next.drop_last() =~= done);
            assert(urls.drop_last() =~= old_urls);
            assert forall|k: int| 0 <= k < next.len() implies resolves_to(
                address_fields(#[trigger] next[k]),
                functions@,
                caches[k],
                caches[k + 1],
                urls[k],
            ) by {
                if k < i {
                    assert(done[k] == next[k]);
                    assert(old_caches[k] == caches[k]);
                    assert(old_caches[k + 1] == caches[k + 1]);
                    assert(old_urls[k] == urls[k]);
                }
            }
        }
        match made {
            Some(f) => {
                out.push(f);
                assert(formats_view(out@) =~= seen.push(f@));
                assert(before + (collected(done, urls.drop_last()) + seq![f@]) =~= (before
                    + collected(done, urls.drop_last())).push(f@));
            },
            None => {
                assert(before + (collected(done, urls.drop_last())
                    + Seq::<VideoFormatView>::empty()) =~= before + collected(
                    done,
                    urls.drop_last(),
                ));
            },
        }
        i += 1;
    }
    assert(entries@.subrange(0, entries.len() as int) =~= entries@);
    Ghost((caches, urls))
}

/// `out` is what the records of `data` may resolve to with `functions`:
/// there are addresses that the records, the standard ones before the
/// adaptive ones, resolve to in turn, nothing being remembered before the
/// first, and `out` holds the formats that the records make with them.
pub open spec fn resolves_data(
    data: StreamingData,
    functions: Seq<(String, String)>,
    out: Seq<VideoFormatView>,
) -> bool {
    exists|caches: Seq<Map<Seq<char>, Seq<char>>>, urls: Seq<Seq<char>>|
        {
            &&& #[trigger] resolves_in_turn(
                data.formats@ + data.adaptive_formats@,
                functions,
                caches,
                urls,
            )
            &&& caches[0] == Map::<Seq<char>, Seq<char>>::empty()
            &&& out == collected(data.formats@ + data.adaptive_formats@, urls)
        }
}

/// Resolves the records of a streaming section, the standard ones before
/// the adaptive ones: each with its address resolved and with what it
/// carries derived. The results of the n-transform function are remembered
/// from one record to the next. A record that lacks what a format needs is
/// left out.
pub fn resolve_formats(data: &StreamingData, format_functions: &Vec<(String, String)>) -> (out:
    Vec<VideoFormat>)
    ensures
        resolves_data(*data, format_functions@, formats_view(out@)),
{
    let mut n_transform_cache = ValueCache::new();
    let mut cipher_cache: Option<(String, boa_engine::Context<'_>)> = None;
    let mut out: Vec<VideoFormat> = Vec::new();
    assert(formats_view(out@) =~= Seq::<VideoFormatView>::empty());
    let first = resolve_list(
        &data.formats,
        format_functions,
        &mut n_transform_cache,
        &mut cipher_cache,
        &mut out,
    );
    let second = resolve_list(
        &data.adaptive_formats,
        format_functions,
        &mut n_transform_cache,
        &mut cipher_cache,
        &mut out,
    );
    proof {
        let entries = data.formats@ + data.adaptive_formats@;
        let caches = first@.0 + second@.0.drop_first();
        let urls = first@.1 + second@.1;
        let n = data.formats@.len() as int;
        lemma_collected_concat(data.formats@, first@.1, data.adaptive_formats@, second@.1);
        assert forall|k: int| 0 <= k < entries.len() implies resolves_to(
            address_fields(#[trigger] entries[k]),
            format_functions@,
            caches[k],
            caches[k + 1],
            urls[k],
        ) by {
            if k < n {
                assert(entries[k] == data.formats@[k]);
                assert(caches[k] == first@.0[k]);
                assert(caches[k + 1] == first@.0[k + 1]);
                assert(urls[k] == first@.1[k]);
            } else {
                assert(entries[k] == data.adaptive_formats@[k - n]);
                assert(urls[k] == second@.1[k - n]);
                assert(caches[k + 1] == second@.0[k - n + 1]);
                if k == n {
                    assert(caches[k] == first@.0.last());
                } else {
                    assert(caches[k] == second@.0[k - n]);
                }
            }
        }
        assert(resolves_in_turn(entries, format_functions@, caches, urls));
        assert(Seq::<VideoFormatView>::empty() + collected(data.formats@, first@.1)
            =~= collected(data.formats@, first@.1));
    }
    out
}

/// The text that the member `key` of a record is. `None` where the record
/// has no such member or it is no text.
pub open spec fn text_member(record: Json, key: Seq<char>) -> Option<String> {
    match record.at(key) {
        Some(Json::Text(t)) => Some(t),
        _ => None,
    }
}

/// The unsigned integer that the member `key` of a record is.
pub open spec fn number_member(record: Json, key: Seq<char>) -> Option<u64> {
    match record.at(key) {
        Some(Json::Unsigned(n)) => Some(n),
        _ => None,
    }
}

/// A member that is to be a text is one, is null, or is not there.
pub open spec fn fits_text(record: Json, key: Seq<char>) -> bool {
    match record.at(key) {
        Some(Json::Text(_)) | Some(Json::Null) | None => true,
        _ => false,
    }
}

/// A member that is to be an unsigned integer is one, is null, or is not
/// there.
pub open spec fn fits_number(record: Json, key: Seq<char>) -> bool {
    match record.at(key) {
        Some(Json::Unsigned(_)) | Some(Json::Null) | None => true,
        _ => false,
    }
}

/// Every member of a record that a field is read from has a type that the
/// field takes.
pub open spec fn is_well_typed(record: Json) -> bool {
    &&& fits_number(record, "itag"@)
    &&& fits_text(record, "mimeType"@)
    &&& fits_number(record, "bitrate"@)
    &&& fits_number(record, "width"@)
    &&& fits_number(record, "height"@)
    &&& fits_text(record, "contentLength"@)
    &&& fits_text(record, "quality"@)
    &&& fits_number(record, "fps"@)
    &&& fits_text(record, "qualityLabel"@)
    &&& fits_text(record, "audioQuality"@)
    &&& fits_number(record, "audioBitrate"@)
    &&& fits_text(record, "url"@)
    &&& fits_text(record, "signatureCipher"@)
    &&& fits_text(record, "cipher"@)
}

/// `entry` is the record `record` read: each field is the member of its
/// name where that has the type of the field, the media type is what the
/// member `mimeType` reads as, the derived flags are not set, and the entry
/// is malformed where a member has a type that its field does not take.
pub open spec fn is_entry_of(record: Json, entry: RawFormatEntry) -> bool {
    &&& entry.malformed == !is_well_typed(record)
    &&& entry.itag == number_member(record, "itag"@)
    &&& match text_member(record, "mimeType"@) {
        Some(text) => match entry.mime_type {
            Some(m) => mime_parts(encode_utf8(text@)) == Some(mime_bytes(m)),
            None => mime_parts(encode_utf8(text@)) is None,
        },
        None => entry.mime_type is None,
    }
    &&& entry.bitrate == number_member(record, "bitrate"@)
    &&& entry.width == number_member(record, "width"@)
    &&& entry.height == number_member(record, "height"@)
    &&& entry.content_length == text_member(record, "contentLength"@)
    &&& entry.quality == text_member(record, "quality"@)
    &&& entry.fps == number_member(record, "fps"@)
    &&& entry.quality_label == text_member(record, "qualityLabel"@)
    &&& entry.audio_quality == text_member(record, "audioQuality"@)
    &&& entry.audio_bitrate == number_member(record, "audioBitrate"@)
    &&& entry.url == text_member(record, "url"@)
    &&& entry.signature_cipher == text_member(record, "signatureCipher"@)
    &&& entry.cipher == text_member(record, "cipher"@)
    &&& entry.has_video is None
    &&& entry.has_audio is None
    &&& entry.is_live is None
    &&& entry.is_hls is None
    &&& entry.is_dash_mpd is None
}

/// The text of a member of a record.
fn read_text(record: &Json, key: &str) -> (r: Option<String>)
    ensures
        r == text_member(*record, key@),
{
    match record.get(key) {
        Some(Json::Text(t)) => Some(t.clone()),
        _ => None,
    }
}

/// The number of a member of a record.
fn read_number(record: &Json, key: &str) -> (r: Option<u64>)
    ensures
        r == number_member(*record, key@),
{
    match record.get(key) {
        Some(Json::Unsigned(n)) => Some(*n),
        _ => None,
    }
}

/// Whether a member that is to be a text has a type that fits.
fn text_fits_member(record: &Json, key: &str) -> (r: bool)
    ensures
        r == fits_text(*record, key@),
{
    match record.get(key) {
        Some(Json::Text(_)) => true,
        Some(Json::Null) => true,
        None => true,
        _ => false,
    }
}

/// Whether a member that is to be an unsigned integer has a type that fits.
fn number_fits_member(record: &Json, key: &str) -> (r: bool)
    ensures
        r == fits_number(*record, key@),
{
    match record.get(key) {
        Some(Json::Unsigned(_)) => true,
        Some(Json::Null) => true,
        None => true,
        _ => false,
    }
}

/// Whether every member that a field is read from has a type that fits.
fn well_typed(record: &Json) -> (r: bool)
    ensures
        r == is_well_typed(*record),
{
    number_fits_member(record, "itag") && text_fits_member(record, "mimeType")
        && number_fits_member(record, "bitrate") && number_fits_member(record, "width")
        && number_fits_member(record, "height") && text_fits_member(record, "contentLength")
        && text_fits_member(record, "quality") && number_fits_member(record, "fps")
        && text_fits_member(record, "qualityLabel") && text_fits_member(record, "audioQuality")
        && number_fits_member(record, "audioBitrate") && text_fits_member(record, "url")
        && text_fits_member(record, "signatureCipher") && text_fits_member(record, "cipher")
}

/// Reads a format record.
pub fn read_entry(record: &Json) -> (entry: RawFormatEntry)
    ensures
        is_entry_of(*record, entry),
{
    let mime_type = match read_text(record, "mimeType") {
        Some(text) => parse_mime_type(text.as_str()),
        None => None,
    };
    RawFormatEntry {
        itag: read_number(record, "itag"),
        mime_type,
        bitrate: read_number(record, "bitrate"),
        width: read_number(record, "width"),
        height: read_number(record, "height"),
        content_length: read_text(record, "contentLength"),
        quality: read_text(record, "quality"),
        fps: read_number(record, "fps"),
        quality_label: read_text(record, "qualityLabel"),
        audio_quality: read_text(record, "audioQuality"),
        audio_bitrate: read_number(record, "audioBitrate"),
        url: read_text(record, "url"),
        signature_cipher: read_text(record, "signatureCipher"),
        cipher: read_text(record, "cipher"),
        has_video: None,
        has_audio: None,
        is_live: None,
        is_hls: None,
        is_dash_mpd: None,
        malformed: !well_typed(record),
    }
}

/// `entries` are the records `records` read, one for one.
pub open spec fn are_entries_of(records: Seq<Json>, entries: Seq<RawFormatEntry>) -> bool {
    &&& entries.len() == records.len()
    &&& forall|i: int| 0 <= i < records.len() ==> is_entry_of(#[trigger] records[i], entries[i])
}

/// Reads a list of format records.
fn read_entries(records: &Vec<Json>) -> (entries: Vec<RawFormatEntry>)
    ensures
        are_entries_of(records@, entries@),
{
    let mut entries: Vec<RawFormatEntry> = Vec::new();
    let mut i: usize = 0;
    while i < records.len()
        invariant
            i <= records.len(),
            entries.len() == i,
            forall|k: int| 0 <= k < i ==> is_entry_of(#[trigger] records@[k], entries@[k]),
        decreases records.len() - i,
    {
        entries.push(read_entry(&records[i]));
        i += 1;
    }
    entries
}

/// The two lists of format records in the metadata of a video: the
/// members `formats` and `adaptiveFormats` of its member `streamingData`.
/// `None` where a member is missing or no list.
pub open spec fn streaming_records(info: Json) -> Option<(Seq<Json>, Seq<Json>)> {
    match info.at("streamingData"@) {
        Some(section) => match (section.at("formats"@), section.at("adaptiveFormats"@)) {
            (Some(Json::List(formats)), Some(Json::List(adaptive))) => Some(
                (formats@, adaptive@),
            ),
            _ => None,
        },
        None => None,
    }
}

/// Reads the streaming section of the metadata of a video.
pub fn read_streaming_data(info: &Json) -> (r: Option<StreamingData>)
    ensures
        match streaming_records(*info) {
            Some(records) => r matches Some(data) && are_entries_of(records.0, data.formats@)
                && are_entries_of(records.1, data.adaptive_formats@),
            None => r is None,
        },
{
    match info.get("streamingData") {
        Some(section) => match (section.get("formats"), section.get("adaptiveFormats")) {
            (Some(Json::List(formats)), Some(Json::List(adaptive))) => Some(
                StreamingData {
                    formats: read_entries(formats),
                    adaptive_formats: read_entries(adaptive),
                },
            ),
            _ => None,
        },
        None => None,
    }
}

/// `out` is what the records of the two lists may resolve to with
/// `functions`, once they are read.
pub open spec fn resolves_records(
    standard: Seq<Json>,
    adaptive: Seq<Json>,
    functions: Seq<(String, String)>,
    out: Seq<VideoFormatView>,
) -> bool {
    exists|data: StreamingData|
        {
            &&& are_entries_of(standard, data.formats@)
            &&& are_entries_of(adaptive, data.adaptive_formats@)
            &&& #[trigger] resolves_data(data, functions, out)
        }
}

/// Resolves the formats of a video from its metadata: the records of its
/// streaming section are read and resolved. `None` where the metadata has
/// no streaming section with its two lists of records.
pub fn parse_video_formats(info: &Json, format_functions: &Vec<(String, String)>) -> (r: Option<
    Vec<VideoFormat>,
>)
    ensures
        match streaming_records(*info) {
            Some(records) => r matches Some(out) && resolves_records(
                records.0,
                records.1,
                format_functions@,
                formats_view(out@),
            ),
            None => r is None,
        },
{
    match read_streaming_data(info) {
        Some(data) => {
            let out = resolve_formats(&data, format_functions);
            assert(resolves_data(data, format_functions@, formats_view(out@)));
            proof {
                let records = streaming_records(*info)->Some_0;
                assert(resolves_records(
                    records.0,
                    records.1,
                    format_functions@,
                    formats_view(out@),
                ));
            }
            Some(out)
        },
        None => None,
    }
}

/// An address that a record holds itself comes out as it is where there is
/// no n-transform function, whatever the decipher function and whatever is
/// remembered: the format that the record makes has that very address.
pub proof fn lemma_direct_address_round_trip(
    format: RawFormatEntry,
    functions: Seq<(String, String)>,
    before: Map<Seq<char>, Seq<char>>,
    after: Map<Seq<char>, Seq<char>>,
    out: Seq<char>,
)
    requires
        format.url is Some,
        source_at(functions, 1).len() == 0,
        resolves_to(address_fields(format), functions, before, after, out),
    ensures
        out == format.url->0@,
        after == before,
        resolved_format(format, out) matches Some(f) ==> f.url == format.url->0@,
{
}

} // verus!
