use rusty_ytdl::{
    choose_format, filter_formats, sort_formats, sort_formats_by, sort_formats_by_audio,
    sort_formats_by_video, DownloadOptions, MimeType, VideoError, VideoFormat, VideoOptions,
    VideoQuality, VideoSearchOptions,
};
use std::cmp::Ordering;

type Pred = Box<dyn Fn(&VideoFormat) -> bool>;
type Cmp = Box<dyn Fn(&VideoFormat, &VideoFormat) -> Ordering>;

fn format(itag: u64, label: Option<&str>, bitrate: u64, video: bool, audio: bool) -> VideoFormat {
    VideoFormat {
        itag,
        mime_type: MimeType {
            mime: "video/mp4".to_string(),
            container: "mp4".to_string(),
            codecs: vec![],
            video_codec: None,
            audio_codec: None,
        },
        bitrate,
        width: None,
        height: None,
        content_length: None,
        quality: None,
        fps: None,
        quality_label: label.map(|l| l.to_string()),
        audio_quality: None,
        audio_bitrate: None,
        url: format!("https://example.com/{}", itag),
        has_video: video,
        has_audio: audio,
        is_live: false,
        is_hls: false,
        is_dash_mpd: false,
    }
}

fn with_codecs(mut f: VideoFormat, codecs: &[&str]) -> VideoFormat {
    f.mime_type.codecs = codecs.iter().map(|c| c.to_string()).collect();
    f
}

fn options(quality: VideoQuality<Pred, Cmp>, filter: VideoSearchOptions<Pred>) -> VideoOptions<Pred, Cmp> {
    VideoOptions { quality, filter, download_options: DownloadOptions { dl_chunk_size: None } }
}

fn fixtures() -> Vec<VideoFormat> {
    let a = format(1, Some("720p"), 500, true, true);
    let b = format(2, Some("1080p"), 800, true, false);
    let mut c = format(3, Some("480p"), 300, true, true);
    c.is_hls = true;
    vec![a, b, c]
}

#[test]
fn highest_returns_the_hls_record_first() {
    let formats = fixtures();
    let chosen = choose_format(
        &formats,
        &options(VideoQuality::Highest, VideoSearchOptions::VideoAudio),
    )
    .unwrap();
    assert_eq!(chosen.itag, 3);
    assert!(chosen.is_hls);
    assert_eq!(chosen, formats[2]);
}

#[test]
fn video_filter_on_audio_only_records_finds_nothing() {
    let mut a = format(1, None, 128, false, true);
    a.audio_bitrate = Some(128);
    let mut b = format(2, None, 64, false, true);
    b.audio_bitrate = Some(64);
    let formats = vec![a, b];
    for quality in [
        VideoQuality::Highest,
        VideoQuality::Lowest,
        VideoQuality::HighestVideo,
        VideoQuality::LowestVideo,
        VideoQuality::HighestAudio,
        VideoQuality::LowestAudio,
    ] {
        let r = choose_format(&formats, &options(quality, VideoSearchOptions::Video));
        assert_eq!(r, Err(VideoError::FormatNotFound));
    }
}

#[test]
fn choosing_from_nothing_finds_nothing() {
    let r = choose_format(&[], &options(VideoQuality::Highest, VideoSearchOptions::VideoAudio));
    assert_eq!(r, Err(VideoError::FormatNotFound));
}

#[test]
fn highest_and_lowest_follow_the_general_ranking() {
    let formats = vec![
        format(1, Some("360p"), 300, true, true),
        format(2, Some("720p"), 500, true, true),
        format(3, Some("720p"), 900, true, true),
        format(4, Some("144p"), 100, true, true),
        format(5, Some("2160p"), 9000, true, false),
    ];
    let best = choose_format(
        &formats,
        &options(VideoQuality::Highest, VideoSearchOptions::VideoAudio),
    )
    .unwrap();
    assert_eq!(best.itag, 3);
    let worst = choose_format(
        &formats,
        &options(VideoQuality::Lowest, VideoSearchOptions::VideoAudio),
    )
    .unwrap();
    assert_eq!(worst.itag, 4);
}

#[test]
fn ties_keep_the_order_of_the_list() {
    let formats = vec![
        format(1, Some("720p"), 500, true, true),
        format(2, Some("720p"), 500, true, true),
        format(3, Some("720p"), 500, true, true),
    ];
    let first = choose_format(
        &formats,
        &options(VideoQuality::Highest, VideoSearchOptions::VideoAudio),
    )
    .unwrap();
    assert_eq!(first.itag, 1);
    let last = choose_format(
        &formats,
        &options(VideoQuality::Lowest, VideoSearchOptions::VideoAudio),
    )
    .unwrap();
    assert_eq!(last.itag, 3);
}

#[test]
fn audio_policies_rank_audio_only_formats_by_audio_bitrate() {
    let mut a = format(1, None, 10, false, true);
    a.audio_bitrate = Some(64);
    let mut b = format(2, None, 20, false, true);
    b.audio_bitrate = Some(160);
    let mut c = format(3, None, 30, false, true);
    c.audio_bitrate = Some(128);
    let d = format(4, Some("1080p"), 4000, true, true);
    let formats = vec![a, b, c, d];
    let filter = || VideoSearchOptions::Custom(Box::new(|_: &VideoFormat| true) as Pred);
    let best = choose_format(&formats, &options(VideoQuality::HighestAudio, filter())).unwrap();
    assert_eq!(best.itag, 2);
    let worst = choose_format(&formats, &options(VideoQuality::LowestAudio, filter())).unwrap();
    assert_eq!(worst.itag, 1);
    let none = choose_format(
        &formats,
        &options(VideoQuality::HighestAudio, VideoSearchOptions::VideoAudio),
    );
    assert_eq!(none, Err(VideoError::FormatNotFound));
}

#[test]
fn audio_ties_fall_back_on_the_general_ranking() {
    let mut a = format(1, None, 10, false, true);
    a.audio_bitrate = Some(128);
    let mut b = format(2, None, 30, false, true);
    b.audio_bitrate = Some(128);
    let formats = vec![a, b];
    let best = choose_format(
        &formats,
        &options(VideoQuality::HighestAudio, VideoSearchOptions::Audio),
    )
    .unwrap();
    assert_eq!(best.itag, 2);
    let worst = choose_format(
        &formats,
        &options(VideoQuality::LowestAudio, VideoSearchOptions::Audio),
    )
    .unwrap();
    assert_eq!(worst.itag, 1);
}

#[test]
fn video_policies_rank_video_only_formats() {
    let formats = vec![
        format(1, Some("720p"), 500, true, false),
        format(2, Some("1080p60"), 800, true, false),
        format(3, Some("1080p"), 900, true, false),
        format(4, Some("2160p"), 9000, true, true),
    ];
    let filter = || VideoSearchOptions::Custom(Box::new(|_: &VideoFormat| true) as Pred);
    let best = choose_format(&formats, &options(VideoQuality::HighestVideo, filter())).unwrap();
    assert_eq!(best.itag, 3);
    let worst = choose_format(&formats, &options(VideoQuality::LowestVideo, filter())).unwrap();
    assert_eq!(worst.itag, 1);
}

#[test]
fn live_formats_pass_every_filter() {
    let mut live = format(1, None, 10, false, false);
    live.is_live = true;
    let mut formats = vec![live, format(2, Some("720p"), 500, true, true)];
    filter_formats(&mut formats, &VideoSearchOptions::<Pred>::Audio);
    assert_eq!(formats.len(), 1);
    assert_eq!(formats[0].itag, 1);
}

#[test]
fn filters_keep_what_they_ask_for_in_order() {
    let all = vec![
        format(1, Some("720p"), 500, true, true),
        format(2, None, 128, false, true),
        format(3, Some("1080p"), 800, true, false),
        format(4, Some("360p"), 300, true, true),
        format(5, None, 64, false, true),
        format(6, None, 1, false, false),
    ];
    let itags = |filter: VideoSearchOptions<Pred>| {
        let mut formats = all.clone();
        filter_formats(&mut formats, &filter);
        formats.iter().map(|f| f.itag).collect::<Vec<u64>>()
    };
    assert_eq!(itags(VideoSearchOptions::VideoAudio), vec![1, 4]);
    assert_eq!(itags(VideoSearchOptions::Video), vec![3]);
    assert_eq!(itags(VideoSearchOptions::Audio), vec![2, 5]);
    assert_eq!(
        itags(VideoSearchOptions::Custom(Box::new(|f: &VideoFormat| f.itag % 2 == 0))),
        vec![2, 4, 6]
    );
}

#[test]
fn an_hls_candidate_leaves_only_hls_and_live_formats() {
    let mut hls = format(1, Some("480p"), 300, true, true);
    hls.is_hls = true;
    let mut live = format(2, Some("720p"), 500, true, true);
    live.is_live = true;
    let plain = format(3, Some("2160p"), 9000, true, true);
    let formats = vec![plain, live, hls];
    let worst = choose_format(
        &formats,
        &options(VideoQuality::Lowest, VideoSearchOptions::VideoAudio),
    )
    .unwrap();
    assert_eq!(worst.itag, 2);
    let best = choose_format(
        &formats,
        &options(VideoQuality::Highest, VideoSearchOptions::VideoAudio),
    )
    .unwrap();
    assert_eq!(best.itag, 1);
}

#[test]
fn an_hls_format_that_is_no_candidate_changes_nothing() {
    let mut hls = format(1, Some("480p"), 300, true, false);
    hls.is_hls = true;
    let plain = format(2, Some("720p"), 500, true, true);
    let formats = vec![hls, plain];
    let best = choose_format(
        &formats,
        &options(VideoQuality::Highest, VideoSearchOptions::VideoAudio),
    )
    .unwrap();
    assert_eq!(best.itag, 2);
}

#[test]
fn custom_policy_uses_its_own_filter_and_comparison() {
    let formats = vec![
        format(1, Some("720p"), 500, true, true),
        format(2, Some("1080p"), 800, true, true),
        format(3, Some("360p"), 100, true, true),
        format(4, Some("144p"), 50, true, false),
    ];
    let lowest_bitrate: Cmp = Box::new(|a, b| a.bitrate.cmp(&b.bitrate));
    let own: Pred = Box::new(|f| f.bitrate >= 100);
    let chosen = choose_format(
        &formats,
        &options(
            VideoQuality::Custom(VideoSearchOptions::Custom(own), lowest_bitrate),
            VideoSearchOptions::VideoAudio,
        ),
    )
    .unwrap();
    assert_eq!(chosen.itag, 3);
}

#[test]
fn custom_comparison_that_says_equal_leaves_the_general_ranking() {
    let formats = vec![
        format(1, Some("720p"), 500, true, true),
        format(2, Some("1080p"), 800, true, true),
        format(3, Some("360p"), 100, true, true),
    ];
    let indifferent: Cmp = Box::new(|_, _| Ordering::Equal);
    let chosen = choose_format(
        &formats,
        &options(
            VideoQuality::Custom(VideoSearchOptions::VideoAudio, indifferent),
            VideoSearchOptions::VideoAudio,
        ),
    )
    .unwrap();
    assert_eq!(chosen.itag, 2);
}

#[test]
fn general_ranking_orders_by_each_key_in_turn() {
    let base = || format(1, Some("720p"), 500, true, true);
    let mut hls = base();
    hls.is_hls = true;
    let mut dash = base();
    dash.is_dash_mpd = true;
    assert_eq!(sort_formats(&hls, &dash), Ordering::Less);
    assert_eq!(sort_formats(&dash, &hls), Ordering::Greater);
    assert_eq!(sort_formats(&dash, &base()), Ordering::Less);
    let video_only = format(1, Some("720p"), 500, true, false);
    let audio_only = format(1, Some("720p"), 500, false, true);
    assert_eq!(sort_formats(&base(), &video_only), Ordering::Less);
    assert_eq!(sort_formats(&video_only, &audio_only), Ordering::Less);
    let mut sized = base();
    sized.content_length = Some("1024".to_string());
    assert_eq!(sort_formats(&sized, &base()), Ordering::Less);
    let mut zero = base();
    zero.content_length = Some("0".to_string());
    assert_eq!(sort_formats(&zero, &base()), Ordering::Equal);
    let mut junk = base();
    junk.content_length = Some("12ab".to_string());
    assert_eq!(sort_formats(&junk, &base()), Ordering::Equal);
    let better = format(1, Some("1080p"), 100, true, true);
    assert_eq!(sort_formats(&better, &base()), Ordering::Less);
    let faster = format(1, Some("720p"), 501, true, true);
    assert_eq!(sort_formats(&faster, &base()), Ordering::Less);
    let mut louder = base();
    louder.audio_bitrate = Some(1);
    assert_eq!(sort_formats(&louder, &base()), Ordering::Less);
    assert_eq!(sort_formats(&base(), &base()), Ordering::Equal);
}

#[test]
fn encodings_rank_by_their_place_in_the_preference_lists() {
    let base = || format(1, Some("720p"), 500, true, true);
    let avc = with_codecs(base(), &["avc1.64001F", "mp4a.40.2"]);
    let vp9 = with_codecs(base(), &["vp9", "opus"]);
    let upper_vp9 = with_codecs(base(), &["VP9", "mp4a.40.2"]);
    let unknown = with_codecs(base(), &["av01.0.08M.08"]);
    assert_eq!(sort_formats_by_video(&upper_vp9, &avc), Ordering::Less);
    assert_eq!(sort_formats_by_video(&avc, &vp9), Ordering::Less);
    assert_eq!(sort_formats_by_video(&vp9, &unknown), Ordering::Equal);
    assert_eq!(sort_formats_by_audio(&vp9, &avc), Ordering::Less);
    assert_eq!(sort_formats_by_audio(&avc, &unknown), Ordering::Less);
    let flac = with_codecs(base(), &["flac"]);
    let mp3 = with_codecs(base(), &["mp3"]);
    assert_eq!(sort_formats_by_audio(&flac, &mp3), Ordering::Less);
    let split = with_codecs(base(), &["mp", "4a"]);
    assert_eq!(sort_formats_by_audio(&split, &unknown), Ordering::Equal);
}

#[test]
fn quality_label_counts_by_the_number_it_starts_with() {
    let label = |l: &str| format(1, Some(l), 500, true, false);
    assert_eq!(sort_formats_by_video(&label("1080p"), &label("720p60")), Ordering::Less);
    assert_eq!(sort_formats_by_video(&label("720p60"), &label("720p")), Ordering::Equal);
    assert_eq!(sort_formats_by_video(&label("p720"), &label("")), Ordering::Equal);
    assert_eq!(sort_formats_by_video(&label("+144p"), &label("p")), Ordering::Less);
    assert_eq!(sort_formats_by_video(&label("-1"), &label("0")), Ordering::Greater);
    assert_eq!(sort_formats_by_video(&label("2147483647p"), &label("2147483646p")), Ordering::Less);
    assert_eq!(sort_formats_by_video(&label("2147483648p"), &label("0p")), Ordering::Equal);
    assert_eq!(sort_formats_by_video(&label("-2147483648"), &label("-2147483647")), Ordering::Greater);
    assert_eq!(sort_formats_by_video(&label("99999999999999999999999p"), &label("0p")), Ordering::Equal);
}

#[test]
fn bitrates_beyond_32_bits_still_compare_as_numbers() {
    let big = format(1, Some("720p"), 6_000_000_000, true, false);
    let small = format(2, Some("720p"), 5_000_000_000, true, false);
    assert_eq!(sort_formats_by_video(&big, &small), Ordering::Less);
    assert_eq!(sort_formats(&small, &big), Ordering::Greater);
}

#[test]
fn sort_formats_by_applies_the_keys_in_order() {
    let a = format(1, Some("720p"), 500, true, true);
    let b = format(2, Some("720p"), 700, true, true);
    let keys = || -> Vec<Box<dyn Fn(&VideoFormat) -> i32>> {
        vec![Box::new(|f| f.has_video as i32), Box::new(|f| f.bitrate as i32), Box::new(|f| f.itag as i32)]
    };
    assert_eq!(sort_formats_by(&a, &b, keys()), Ordering::Greater);
    assert_eq!(sort_formats_by(&b, &a, keys()), Ordering::Less);
    assert_eq!(sort_formats_by(&a, &a, keys()), Ordering::Equal);
    let none: Vec<Box<dyn Fn(&VideoFormat) -> i32>> = vec![];
    assert_eq!(sort_formats_by(&a, &b, none), Ordering::Equal);
    let by_itag: Vec<Box<dyn Fn(&VideoFormat) -> i32>> = vec![Box::new(|_| 0), Box::new(|f| f.itag as i32)];
    assert_eq!(sort_formats_by(&a, &b, by_itag), Ordering::Greater);
}

#[test]
fn the_copy_of_a_format_holds_the_same() {
    let mut f = with_codecs(format(7, Some("720p"), 500, true, true), &["avc1", "mp4a"]);
    f.content_length = Some("123".to_string());
    f.audio_bitrate = Some(128);
    assert_eq!(f.duplicate(), f);
}
