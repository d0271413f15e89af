//! Media formats and the options by which one of them is selected.

use vstd::prelude::*;

verus! {

/// The media type of a format: its container and the codecs it holds.
#[derive(Clone, Debug, PartialEq, Eq)]
pub struct MimeType {
    /// The type and subtype, such as `video/mp4`.
    pub mime: String,
    /// The container, such as `mp4`.
    pub container: String,
    /// The codecs, in the order in which the media type lists them.
    pub codecs: Vec<String>,
    pub video_codec: Option<String>,
    pub audio_codec: Option<String>,
}

/// What a `MimeType` holds.
pub struct MimeTypeView {
    pub mime: Seq<char>,
    pub container: Seq<char>,
    pub codecs: Seq<Seq<char>>,
    pub video_codec: Option<Seq<char>>,
    pub audio_codec: Option<Seq<char>>,
}

/// The characters of a text that may be absent.
pub open spec fn text_view(s: Option<String>) -> Option<Seq<char>> {
    match s {
        Some(t) => Some(t@),
        None => None,
    }
}

impl View for MimeType {
    type V = MimeTypeView;

    open spec fn view(&self) -> MimeTypeView {
        MimeTypeView {
            mime: self.mime@,
            container: self.container@,
            codecs: self.codecs@.map_values(|c: String| c@),
            video_codec: text_view(self.video_codec),
            audio_codec: text_view(self.audio_codec),
        }
    }
}

/// A media stream that can be played or downloaded: its address, what
/// describes it, and what it carries.
#[derive(Clone, Debug, PartialEq, Eq)]
pub struct VideoFormat {
    pub itag: u64,
    pub mime_type: MimeType,
    /// Bits per second.
    pub bitrate: u64,
    pub width: Option<u64>,
    pub height: Option<u64>,
    /// The size in bytes, in decimal digits.
    pub content_length: Option<String>,
    pub quality: Option<String>,
    pub fps: Option<u64>,
    /// The video quality, such as `1080p` or `720p60`.
    pub quality_label: Option<String>,
    pub audio_quality: Option<String>,
    /// Kilobits per second of the audio track.
    pub audio_bitrate: Option<u64>,
    /// The address the stream is fetched from.
    pub url: String,
    pub has_video: bool,
    pub has_audio: bool,
    pub is_live: bool,
    pub is_hls: bool,
    pub is_dash_mpd: bool,
}

/// What a `VideoFormat` holds.
pub struct VideoFormatView {
    pub itag: u64,
    pub mime_type: MimeTypeView,
    pub bitrate: u64,
    pub width: Option<u64>,
    pub height: Option<u64>,
    pub content_length: Option<Seq<char>>,
    pub quality: Option<Seq<char>>,
    pub fps: Option<u64>,
    pub quality_label: Option<Seq<char>>,
    pub audio_quality: Option<Seq<char>>,
    pub audio_bitrate: Option<u64>,
    pub url: Seq<char>,
    pub has_video: bool,
    pub has_audio: bool,
    pub is_live: bool,
    pub is_hls: bool,
    pub is_dash_mpd: bool,
}

impl View for VideoFormat {
    type V = VideoFormatView;

    open spec fn view(&self) -> VideoFormatView {
        VideoFormatView {
            itag: self.itag,
            mime_type: self.mime_type@,
            bitrate: self.bitrate,
            width: self.width,
            height: self.height,
            content_length: text_view(self.content_length),
            quality: text_view(self.quality),
            fps: self.fps,
            quality_label: text_view(self.quality_label),
            audio_quality: text_view(self.audio_quality),
            audio_bitrate: self.audio_bitrate,
            url: self.url@,
            has_video: self.has_video,
            has_audio: self.has_audio,
            is_live: self.is_live,
            is_hls: self.is_hls,
            is_dash_mpd: self.is_dash_mpd,
        }
    }
}

/// A copy of a text that may be absent.
pub fn copy_text(s: &Option<String>) -> (r: Option<String>)
    ensures
        r == *s,
{
    match s {
        Some(t) => Some(t.clone()),
        None => None,
    }
}

impl MimeType {
    /// A copy that holds the same.
    pub fn duplicate(&self) -> (r: MimeType)
        ensures
            r@ == self@,
    {
        let codecs = self.codecs.clone();
        assert(codecs@.map_values(|c: String| c@) =~= self.codecs@.map_values(|c: String| c@));
        MimeType {
            mime: self.mime.clone(),
            container: self.container.clone(),
            codecs,
            video_codec: copy_text(&self.video_codec),
            audio_codec: copy_text(&self.audio_codec),
        }
    }
}

impl VideoFormat {
    /// A copy that holds the same.
    pub fn duplicate(&self) -> (r: VideoFormat)
        ensures
            r@ == self@,
    {
        VideoFormat {
            itag: self.itag,
            mime_type: self.mime_type.duplicate(),
            bitrate: self.bitrate,
            width: self.width,
            height: self.height,
            content_length: copy_text(&self.content_length),
            quality: copy_text(&self.quality),
            fps: self.fps,
            quality_label: copy_text(&self.quality_label),
            audio_quality: copy_text(&self.audio_quality),
            audio_bitrate: self.audio_bitrate,
            url: self.url.clone(),
            has_video: self.has_video,
            has_audio: self.has_audio,
            is_live: self.is_live,
            is_hls: self.is_hls,
            is_dash_mpd: self.is_dash_mpd,
        }
    }
}

/// Which formats are candidates: by what they carry, or by a predicate of
/// the caller's. A live format is a candidate under every filter.
pub enum VideoSearchOptions<P> {
    /// Formats with both video and audio.
    VideoAudio,
    /// Formats with video and no audio.
    Video,
    /// Formats with audio and no video.
    Audio,
    /// Formats of which the predicate holds.
    Custom(P),
}

/// Which of the candidates is selected.
pub enum VideoQuality<P, C> {
    /// The first in the general ranking.
    Highest,
    /// The last in the general ranking.
    Lowest,
    /// The first audio-only format in the audio ranking.
    HighestAudio,
    /// The last audio-only format in the audio ranking.
    LowestAudio,
    /// The first video-only format in the video ranking.
    HighestVideo,
    /// The last video-only format in the video ranking.
    LowestVideo,
    /// The first, in the order given, of the formats that pass the filter
    /// given.
    Custom(VideoSearchOptions<P>, C),
}

/// How a stream is downloaded.
#[derive(Clone, Copy, Debug, PartialEq, Eq)]
pub struct DownloadOptions {
    /// The size of a chunk in bytes, where the default is not wanted.
    pub dl_chunk_size: Option<u64>,
}

/// The options of a selection: the quality policy and the capability filter.
pub struct VideoOptions<P, C> {
    pub quality: VideoQuality<P, C>,
    pub filter: VideoSearchOptions<P>,
    pub download_options: DownloadOptions,
}

/// Why no format, or no stream, was produced.
#[derive(Clone, Copy, Debug, PartialEq, Eq)]
pub enum VideoError {
    /// No format is left after filtering.
    FormatNotFound,
    /// The selected format has no address.
    VideoSourceNotFound,
    /// The selected format is a live stream, which this stream cannot carry.
    LiveStreamNotSupported,
    /// A block of addresses is not written as an address and a number of
    /// bits.
    InvalidIPv6Format,
    /// The number of bits of a block of addresses is not between 24 and
    /// 128.
    InvalidIPv6Subnet,
}

} // verus!
