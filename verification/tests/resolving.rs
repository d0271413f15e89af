use rusty_ytdl::{
    next_chunk, ChunkRange, ChunkState,
    add_format_meta, finish, parse_video_formats, plan_stream, read_entry, resolve_entry,
    resolve_formats, set_download_url, DownloadOptions, Json, MimeType, RawFormatEntry,
    SetDownloadURLValue, StreamPlan, StreamingData, ValueCache, VideoError, VideoFormat,
    VideoOptions, VideoQuality, VideoSearchOptions,
};
use std::cmp::Ordering;

type Pred = Box<dyn Fn(&VideoFormat) -> bool>;
type Cmp = Box<dyn Fn(&VideoFormat, &VideoFormat) -> Ordering>;

fn functions() -> Vec<(String, String)> {
    vec![
        ("up".to_string(), "var up=function(a){return a.toUpperCase()};".to_string()),
        ("rev".to_string(), "var rev=function(a){return a.split('').reverse().join('')};".to_string()),
    ]
}

fn mime() -> MimeType {
    MimeType {
        mime: "video/mp4".to_string(),
        container: "mp4".to_string(),
        codecs: vec!["avc1.64001F".to_string(), "mp4a.40.2".to_string()],
        video_codec: Some("avc1.64001F".to_string()),
        audio_codec: Some("mp4a.40.2".to_string()),
    }
}

fn raw(itag: u64) -> RawFormatEntry {
    RawFormatEntry {
        itag: Some(itag),
        mime_type: Some(mime()),
        bitrate: Some(1000),
        width: Some(1280),
        height: Some(720),
        content_length: Some("12345".to_string()),
        quality: Some("hd720".to_string()),
        fps: Some(30),
        quality_label: Some("720p".to_string()),
        audio_quality: Some("AUDIO_QUALITY_MEDIUM".to_string()),
        audio_bitrate: None,
        url: None,
        signature_cipher: None,
        cipher: None,
        has_video: None,
        has_audio: None,
        is_live: None,
        is_hls: None,
        is_dash_mpd: None,
        malformed: false,
    }
}

fn fields(url: Option<&str>, signature_cipher: Option<&str>, cipher: Option<&str>) -> SetDownloadURLValue {
    SetDownloadURLValue {
        url: url.map(|s| s.to_string()),
        signature_cipher: signature_cipher.map(|s| s.to_string()),
        cipher: cipher.map(|s| s.to_string()),
    }
}

#[test]
fn a_direct_address_comes_out_as_it_is_without_an_n_function() {
    let mut cache = ValueCache::new();
    let mut slot = None;
    for url in ["https://x/v?n=abc&a=%41", "HTTPS://X/v?n=abc#f", "not a url", "", "https://x/?n=ы"] {
        for functions in [vec![], vec![functions()[0].clone()], vec![functions()[0].clone(), (String::new(), String::new())]] {
            let out = set_download_url(&fields(Some(url), Some("url=u&s=s"), None), &functions, &mut cache, &mut slot);
            assert_eq!(out, url);
        }
    }
    assert_eq!(cache.len(), 0);
    assert!(slot.is_none());
}

#[test]
fn the_address_comes_before_the_cipher_fields() {
    let mut cache = ValueCache::new();
    let mut slot = None;
    let out = set_download_url(
        &fields(Some("https://x/v?n=abc"), Some("url=https://y/&s=sig"), Some("url=https://z/&s=sig")),
        &functions(),
        &mut cache,
        &mut slot,
    );
    assert_eq!(out, "https://x/v?n=cba");
    let out = set_download_url(
        &fields(None, Some("url=https://y/?n=abc&s=sig"), Some("url=https://z/&s=sig")),
        &functions(),
        &mut cache,
        &mut slot,
    );
    assert_eq!(out, "https://y/?n=cba&signature=SIG");
    let out = set_download_url(
        &fields(None, None, Some("url=https://z/&s=sig&sp=s")),
        &functions(),
        &mut cache,
        &mut slot,
    );
    assert_eq!(out, "https://z/?s=SIG");
    let out = set_download_url(&fields(None, None, None), &functions(), &mut cache, &mut slot);
    assert_eq!(out, "");
}

#[test]
fn format_meta_is_derived_from_the_record_and_its_address() {
    let mut entry = raw(1);
    entry.url = Some("https://x/videoplayback?source=yt_live_broadcast&a=1".to_string());
    entry.has_video = Some(false);
    add_format_meta(&mut entry);
    assert_eq!(entry.has_video, Some(true));
    assert_eq!(entry.has_audio, Some(true));
    assert_eq!(entry.is_live, Some(true));
    assert_eq!(entry.is_hls, Some(false));
    assert_eq!(entry.is_dash_mpd, Some(false));
    assert_eq!(entry.itag, Some(1));
    assert_eq!(entry.quality_label, Some("720p".to_string()));

    let mut entry = raw(2);
    entry.quality_label = None;
    entry.audio_quality = None;
    entry.url = Some("https://x/api/manifest/hls_variant/id/1".to_string());
    add_format_meta(&mut entry);
    assert_eq!(entry.has_video, Some(false));
    assert_eq!(entry.has_audio, Some(false));
    assert_eq!(entry.is_live, Some(false));
    assert_eq!(entry.is_hls, Some(true));
    assert_eq!(entry.is_dash_mpd, Some(false));

    let mut entry = raw(3);
    entry.audio_quality = None;
    entry.audio_bitrate = Some(128);
    add_format_meta(&mut entry);
    assert_eq!(entry.has_audio, Some(true));
    assert_eq!(entry.is_live, Some(false));
    assert_eq!(entry.is_hls, Some(false));
    assert_eq!(entry.is_dash_mpd, Some(false));
}

fn flags(url: &str) -> (bool, bool, bool) {
    let mut entry = raw(1);
    entry.url = Some(url.to_string());
    add_format_meta(&mut entry);
    (entry.is_live.unwrap(), entry.is_hls.unwrap(), entry.is_dash_mpd.unwrap())
}

#[test]
fn markers_of_an_address() {
    assert_eq!(flags("https://x/source/yt_live_broadcast/a"), (true, false, false));
    assert_eq!(flags("https://x/?source=yt_live_broadcast"), (true, false, false));
    assert_eq!(flags("source=yt_live_broadcast"), (true, false, false));
    assert_eq!(flags("https://x/?resource=yt_live_broadcast"), (false, false, false));
    assert_eq!(flags("https://x/?source=yt_live_broadcasts"), (false, false, false));
    assert_eq!(flags("https://x/?source=yt_live_broadcast_"), (false, false, false));
    assert_eq!(flags("https://x/?_source=yt_live_broadcast"), (false, false, false));
    assert_eq!(flags("https://x/?source:yt_live_broadcast"), (false, false, false));
    assert_eq!(flags("https://x/?\u{e9}source=yt_live_broadcast"), (false, false, false));
    assert_eq!(flags("https://x/?source=yt_live_broadcast\u{e9}"), (false, false, false));
    assert_eq!(flags("https://x/?\u{2014}source=yt_live_broadcast"), (true, false, false));
    assert_eq!(
        flags("https://x/?resource=yt_live_broadcast&source=yt_live_broadcast"),
        (true, false, false)
    );
    assert_eq!(flags("https://x/api/manifest/hls_playlist/1"), (false, true, false));
    assert_eq!(flags("https://x/api/manifest/hls_variant/1"), (false, true, false));
    assert_eq!(flags("https://x/api/manifest/hls_other/1"), (false, false, false));
    assert_eq!(flags("https://x/api/manifest/hls_variant"), (false, false, false));
    assert_eq!(flags("https://x/api/manifest/dash/1"), (false, false, true));
    assert_eq!(flags("https://x/api/manifest/dash"), (false, false, false));
    assert_eq!(
        flags("https://x/manifest/dash/manifest/hls_variant/source/yt_live_broadcast"),
        (true, true, true)
    );
    assert_eq!(flags(""), (false, false, false));
}

#[test]
fn a_record_that_lacks_a_field_makes_no_format() {
    let mut entry = raw(1);
    entry.url = Some("https://x/".to_string());
    assert!(finish(&entry).is_none());
    add_format_meta(&mut entry);
    let f = finish(&entry).unwrap();
    assert_eq!(f.itag, 1);
    assert_eq!(f.url, "https://x/");
    assert_eq!(f.mime_type, mime());
    assert_eq!(f.bitrate, 1000);
    assert_eq!(f.content_length, Some("12345".to_string()));
    assert!(f.has_video && f.has_audio && !f.is_live && !f.is_hls && !f.is_dash_mpd);
    for broken in 0..4 {
        let mut e = entry.clone();
        match broken {
            0 => e.itag = None,
            1 => e.mime_type = None,
            2 => e.bitrate = None,
            _ => e.url = None,
        }
        assert!(finish(&e).is_none());
    }
}

#[test]
fn resolving_a_record_drops_the_cipher_and_derives_the_flags() {
    let mut entry = raw(5);
    entry.signature_cipher = Some("url=https://x/manifest/dash/v?n=abc&s=sig&sp=sg".to_string());
    let mut cache = ValueCache::new();
    let mut slot = None;
    let f = resolve_entry(&entry, &functions(), &mut cache, &mut slot).unwrap();
    assert_eq!(f.url, "https://x/manifest/dash/v?n=cba&sg=SIG");
    assert!(f.is_dash_mpd);
    assert!(f.has_video && f.has_audio);
    assert_eq!(cache.get("abc"), Some("cba".to_string()));
    let mut bad = raw(6);
    bad.bitrate = None;
    bad.url = Some("https://x/?n=abc".to_string());
    assert!(resolve_entry(&bad, &functions(), &mut cache, &mut slot).is_none());
}

#[test]
fn formats_are_resolved_in_order_and_malformed_records_dropped() {
    let mut a = raw(1);
    a.url = Some("https://x/1?n=abc".to_string());
    let mut b = raw(2);
    b.mime_type = None;
    b.url = Some("https://x/2?n=def".to_string());
    let mut c = raw(3);
    c.cipher = Some("url=https://x/3?n=abc&s=c".to_string());
    let mut d = raw(4);
    d.signature_cipher = Some("s=d&url=https://x/4".to_string());
    let data = StreamingData { formats: vec![a, b], adaptive_formats: vec![c, d] };
    let out = resolve_formats(&data, &functions());
    let urls: Vec<&str> = out.iter().map(|f| f.url.as_str()).collect();
    assert_eq!(
        urls,
        vec!["https://x/1?n=cba", "https://x/3?n=cba&signature=C", "https://x/4?signature=D"]
    );
    assert_eq!(out.iter().map(|f| f.itag).collect::<Vec<u64>>(), vec![1, 3, 4]);
    let empty = StreamingData { formats: vec![], adaptive_formats: vec![] };
    assert_eq!(resolve_formats(&empty, &functions()), vec![]);
    let plain = resolve_formats(&data, &vec![]);
    assert_eq!(plain[0].url, "https://x/1?n=abc");
    assert_eq!(plain[1].url, "url=https://x/3?n=abc&s=c");
}

#[test]
fn one_bad_record_does_not_stop_the_batch() {
    let broken = vec![
        ("f".to_string(), "var f=function(a){throw a};".to_string()),
        ("g".to_string(), "var g=function(".to_string()),
    ];
    let mut a = raw(1);
    a.signature_cipher = Some("url=https://x/1?n=abc&s=sig".to_string());
    let mut b = raw(2);
    b.url = Some("https://x/2?n=abc".to_string());
    let data = StreamingData { formats: vec![a], adaptive_formats: vec![b] };
    let out = resolve_formats(&data, &broken);
    assert_eq!(out.len(), 2);
    assert_eq!(out[0].url, "https://x/1?n=abc");
    assert_eq!(out[1].url, "https://x/2?n=abc");
}

fn options(chunk: Option<u64>) -> VideoOptions<Pred, Cmp> {
    VideoOptions {
        quality: VideoQuality::Highest,
        filter: VideoSearchOptions::VideoAudio,
        download_options: DownloadOptions { dl_chunk_size: chunk },
    }
}

fn playable(url: &str, length: Option<&str>) -> VideoFormat {
    let mut entry = raw(1);
    entry.url = Some(url.to_string());
    entry.content_length = length.map(|l| l.to_string());
    add_format_meta(&mut entry);
    finish(&entry).unwrap()
}

#[test]
fn a_stream_is_planned_in_chunks() {
    let formats = vec![playable("https://x/v", Some("5000"))];
    match plan_stream(&formats, &options(None), true) {
        Ok(StreamPlan::NonLive { link, content_length, dl_chunk_size, start, end }) => {
            assert_eq!(link, "https://x/v");
            assert_eq!(content_length, 5000);
            assert_eq!(dl_chunk_size, 10 * 1024 * 1024);
            assert_eq!(start, 0);
            assert_eq!(end, 10 * 1024 * 1024);
        }
        _ => panic!("a stream in chunks was expected"),
    }
    match plan_stream(&formats, &options(Some(4096)), false) {
        Ok(StreamPlan::NonLive { dl_chunk_size, end, .. }) => {
            assert_eq!(dl_chunk_size, 4096);
            assert_eq!(end, 4096);
        }
        _ => panic!("a stream in chunks was expected"),
    }
    for length in [None, Some("0"), Some("x"), Some("18446744073709551616")] {
        match plan_stream(&[playable("https://x/v", length)], &options(None), true) {
            Ok(StreamPlan::NonLive { content_length, .. }) => assert_eq!(content_length, 0),
            _ => panic!("a stream in chunks was expected"),
        }
    }
}

#[test]
fn a_stream_without_a_source_is_not_planned() {
    assert!(matches!(
        plan_stream(&[], &options(None), true),
        Err(VideoError::VideoSourceNotFound)
    ));
    assert!(matches!(
        plan_stream(&[playable("", Some("1"))], &options(None), true),
        Err(VideoError::VideoSourceNotFound)
    ));
}

#[test]
fn an_hls_format_is_streamed_live() {
    let formats = vec![playable("https://x/manifest/hls_variant/1", None)];
    match plan_stream(&formats, &options(None), true) {
        Ok(StreamPlan::Live { stream_url }) => assert_eq!(stream_url, "https://x/manifest/hls_variant/1"),
        _ => panic!("a live stream was expected"),
    }
    assert!(matches!(
        plan_stream(&formats, &options(None), false),
        Err(VideoError::LiveStreamNotSupported)
    ));
}

fn text(s: &str) -> Json {
    Json::Text(s.to_string())
}

fn object(members: Vec<(&str, Json)>) -> Json {
    Json::Object(members.into_iter().map(|(k, v)| (k.to_string(), v)).collect())
}

fn record(itag: u64, address: (&str, &str)) -> Json {
    object(vec![
        ("itag", Json::Unsigned(itag)),
        ("mimeType", text(r#"video/mp4; codecs="avc1.64001F, mp4a.40.2""#)),
        ("bitrate", Json::Unsigned(1000)),
        ("width", Json::Unsigned(1280)),
        ("height", Json::Unsigned(720)),
        ("contentLength", text("12345")),
        ("quality", text("hd720")),
        ("fps", Json::Unsigned(30)),
        ("qualityLabel", text("720p")),
        ("audioQuality", text("AUDIO_QUALITY_MEDIUM")),
        ("lastModified", text("1")),
        (address.0, text(address.1)),
    ])
}

#[test]
fn a_record_is_read_field_by_field() {
    let entry = read_entry(&record(18, ("signatureCipher", "url=u&s=s")));
    let mut expected = raw(18);
    expected.signature_cipher = Some("url=u&s=s".to_string());
    assert_eq!(entry, expected);
    let odd = object(vec![
        ("itag", text("18")),
        ("mimeType", text("video/mp4")),
        ("bitrate", Json::Negative(-1)),
        ("url", Json::Unsigned(1)),
        ("qualityLabel", Json::Null),
        ("fps", Json::Decimal("29.97".to_string())),
        ("hasVideo", Json::Bool(true)),
    ]);
    let entry = read_entry(&odd);
    assert!(entry.malformed);
    assert_eq!(entry.itag, None);
    assert_eq!(entry.mime_type, None);
    assert_eq!(entry.bitrate, None);
    assert_eq!(entry.url, None);
    assert_eq!(entry.quality_label, None);
    assert_eq!(entry.fps, None);
    assert_eq!(entry.has_video, None);
    let nothing = read_entry(&Json::Null);
    assert!(!nothing.malformed);
    assert_eq!(nothing.itag, None);
    assert_eq!(nothing.url, None);
}

#[test]
fn formats_are_resolved_from_the_metadata() {
    let info = object(vec![
        ("videoDetails", object(vec![])),
        (
            "streamingData",
            object(vec![
                ("expiresInSeconds", text("21540")),
                (
                    "formats",
                    Json::List(vec![
                        record(18, ("url", "https://x/18?n=abc")),
                        object(vec![("itag", Json::Unsigned(19))]),
                    ]),
                ),
                (
                    "adaptiveFormats",
                    Json::List(vec![record(137, ("cipher", "url=https://x/137?n=abc&s=sig&sp=sg"))]),
                ),
            ]),
        ),
    ]);
    let out = parse_video_formats(&info, &functions()).unwrap();
    assert_eq!(out.len(), 2);
    assert_eq!(out[0].itag, 18);
    assert_eq!(out[0].url, "https://x/18?n=cba");
    assert_eq!(out[0].mime_type, mime());
    assert!(out[0].has_video && out[0].has_audio);
    assert_eq!(out[1].itag, 137);
    assert_eq!(out[1].url, "https://x/137?n=cba&sg=SIG");
}

#[test]
fn metadata_without_a_streaming_section_resolves_to_nothing() {
    assert!(parse_video_formats(&Json::Null, &functions()).is_none());
    assert!(parse_video_formats(&object(vec![]), &functions()).is_none());
    assert!(parse_video_formats(&Json::List(vec![]), &functions()).is_none());
    let no_lists = object(vec![("streamingData", object(vec![]))]);
    assert!(parse_video_formats(&no_lists, &functions()).is_none());
    let one_list = object(vec![("streamingData", object(vec![("formats", Json::List(vec![]))]))]);
    assert!(parse_video_formats(&one_list, &functions()).is_none());
    let no_list = object(vec![(
        "streamingData",
        object(vec![("formats", Json::List(vec![])), ("adaptiveFormats", Json::Null)]),
    )]);
    assert!(parse_video_formats(&no_list, &functions()).is_none());
    let empty = object(vec![(
        "streamingData",
        object(vec![("formats", Json::List(vec![])), ("adaptiveFormats", Json::List(vec![]))]),
    )]);
    assert_eq!(parse_video_formats(&empty, &functions()), Some(vec![]));
}

fn with_member(record: Json, key: &str, value: Json) -> Json {
    match record {
        Json::Object(mut members) => {
            members.retain(|(k, _)| k != key);
            members.push((key.to_string(), value));
            Json::Object(members)
        }
        other => other,
    }
}

fn streaming(records: Vec<Json>) -> Json {
    object(vec![(
        "streamingData",
        object(vec![("formats", Json::List(records)), ("adaptiveFormats", Json::List(vec![]))]),
    )])
}

#[test]
fn a_record_with_a_member_of_the_wrong_type_is_dropped() {
    let good = || record(18, ("url", "https://x/18"));
    let kept = |r: Json| parse_video_formats(&streaming(vec![r]), &functions()).unwrap().len();
    assert_eq!(kept(good()), 1);
    assert_eq!(kept(with_member(good(), "width", Json::Null)), 1);
    assert_eq!(kept(with_member(good(), "unknown", Json::Bool(true))), 1);
    assert_eq!(kept(with_member(good(), "width", text("1280"))), 0);
    assert_eq!(kept(with_member(good(), "fps", Json::Decimal("29.97".to_string()))), 0);
    assert_eq!(kept(with_member(good(), "height", Json::Negative(-1))), 0);
    assert_eq!(kept(with_member(good(), "contentLength", Json::Unsigned(12345))), 0);
    assert_eq!(kept(with_member(good(), "qualityLabel", Json::Bool(true))), 0);
    assert_eq!(kept(with_member(good(), "audioBitrate", text("128"))), 0);
    assert_eq!(kept(with_member(good(), "quality", Json::List(vec![]))), 0);
    assert_eq!(kept(with_member(good(), "cipher", Json::Unsigned(1))), 0);
    assert_eq!(kept(with_member(good(), "itag", Json::Null)), 0);
    assert_eq!(kept(with_member(good(), "mimeType", text("video/mp4"))), 0);
}

#[test]
fn a_malformed_record_is_still_resolved_before_it_is_dropped() {
    let mut entry = raw(1);
    entry.url = Some("https://x/?n=abc".to_string());
    entry.malformed = true;
    let mut cache = ValueCache::new();
    let mut slot = None;
    assert!(resolve_entry(&entry, &functions(), &mut cache, &mut slot).is_none());
    assert_eq!(cache.get("abc"), Some("cba".to_string()));
    add_format_meta(&mut entry);
    assert!(finish(&entry).is_none());
}

#[test]
fn a_direct_address_leaves_the_decipher_slot_alone() {
    let mut cache = ValueCache::new();
    let mut slot = None;
    set_download_url(&fields(None, Some("url=https://y/&s=sig"), None), &functions(), &mut cache, &mut slot);
    assert_eq!(slot.as_ref().map(|e| e.0.clone()), Some(functions()[0].1.clone()));
    let other = vec![("f".to_string(), "var f=function(a){return a};".to_string())];
    set_download_url(&fields(Some("https://x/"), Some("url=https://y/&s=sig"), None), &other, &mut cache, &mut slot);
    assert_eq!(slot.as_ref().map(|e| e.0.clone()), Some(functions()[0].1.clone()));
    set_download_url(&fields(None, Some("url=https://y/&s=sig"), None), &other, &mut cache, &mut slot);
    assert_eq!(slot.as_ref().map(|e| e.0.clone()), Some(other[0].1.clone()));
}

#[test]
fn chunks_follow_one_another_to_the_end() {
    let state = ChunkState { start: 0, end: 100, content_length: 250, dl_chunk_size: 100 };
    let (first, next) = next_chunk(&state);
    assert_eq!(first, ChunkRange::Between(0, 100));
    let state = next.unwrap();
    assert_eq!(state, ChunkState { start: 101, end: 200, content_length: 250, dl_chunk_size: 100 });
    let (second, next) = next_chunk(&state);
    assert_eq!(second, ChunkRange::Between(101, 200));
    let state = next.unwrap();
    assert_eq!(state, ChunkState { start: 201, end: 300, content_length: 250, dl_chunk_size: 100 });
    assert_eq!(next_chunk(&state), (ChunkRange::From(201), None));
}

#[test]
fn a_chunk_that_cannot_be_cut_takes_what_is_left() {
    let whole = ChunkState { start: 0, end: 10, content_length: 10, dl_chunk_size: 10 };
    assert_eq!(next_chunk(&whole), (ChunkRange::From(0), None));
    let none = ChunkState { start: 0, end: 0, content_length: 0, dl_chunk_size: 5 };
    assert_eq!(next_chunk(&none), (ChunkRange::From(0), None));
    let backwards = ChunkState { start: 5, end: 4, content_length: 100, dl_chunk_size: 0 };
    assert_eq!(next_chunk(&backwards), (ChunkRange::From(5), None));
    let zero = ChunkState { start: 0, end: 0, content_length: 100, dl_chunk_size: 0 };
    let (range, next) = next_chunk(&zero);
    assert_eq!(range, ChunkRange::Between(0, 0));
    assert_eq!(next_chunk(&next.unwrap()), (ChunkRange::From(1), None));
    let large = ChunkState { start: 0, end: u64::MAX - 1, content_length: u64::MAX, dl_chunk_size: 10 };
    let (_, next) = next_chunk(&large);
    assert_eq!(next.unwrap().end, u64::MAX);
}
