//! The plan of a download: which format is streamed, and how.

use crate::format::{VideoError, VideoFormat, VideoOptions};
use crate::number::{parse_bounded, parse_unsigned};
use crate::selector::{can_apply, choose_format, selection, single_valued};
use std::cmp::Ordering;
use vstd::prelude::*;
use vstd::string::*;
use vstd::utf8::*;

verus! {

/// The size of a chunk where the options name none: 10 MiB.
pub const DEFAULT_CHUNK_SIZE: u64 = 10485760;

/// How a format is to be streamed.
pub enum StreamPlan {
    /// As a live stream, from this address.
    Live { stream_url: String },
    /// In chunks, from `link`. A `content_length` of 0 says that the size
    /// is not known and has to be asked of the server.
    NonLive { link: String, content_length: u64, dl_chunk_size: u64, start: u64, end: u64 },
}

/// The size that a format gives for its content; 0 where it gives none, or
/// none that is a number of 64 bits.
pub open spec fn content_length_of(f: VideoFormat) -> int {
    match f.content_length {
        Some(text) => match parse_unsigned(encode_utf8(text@), u64::MAX as int) {
            Some(v) => v,
            None => 0,
        },
        None => 0,
    }
}

/// The size of a chunk that the options ask for, or the default.
pub open spec fn chunk_size_of<P, C>(options: VideoOptions<P, C>) -> u64 {
    match options.download_options.dl_chunk_size {
        Some(size) => size,
        None => DEFAULT_CHUNK_SIZE,
    }
}

/// `plan` is the plan for streaming the format `f`: the error that says
/// that there is no source where `f` has no address; a live stream where
/// `f` is an HLS format, or the error that says that live streams are not
/// carried; else chunks of the size asked for, the first from 0.
pub open spec fn is_plan_for<P, C>(
    f: VideoFormat,
    options: VideoOptions<P, C>,
    live: bool,
    plan: Result<StreamPlan, VideoError>,
) -> bool {
    if f.url@.len() == 0 {
        plan == Err::<StreamPlan, VideoError>(VideoError::VideoSourceNotFound)
    } else if f.is_hls {
        if live {
            plan matches Ok(StreamPlan::Live { stream_url }) && stream_url@ == f.url@
        } else {
            plan == Err::<StreamPlan, VideoError>(VideoError::LiveStreamNotSupported)
        }
    } else {
        plan matches Ok(StreamPlan::NonLive { link, content_length, dl_chunk_size, start, end })
            && link@ == f.url@ && content_length == content_length_of(f) && dl_chunk_size
            == chunk_size_of(options) && start == 0 && end == chunk_size_of(options)
    }
}

/// Plans the streaming of one format.
fn plan_for<P, C>(f: VideoFormat, options: &VideoOptions<P, C>, live: bool) -> (plan: Result<
    StreamPlan,
    VideoError,
>)
    ensures
        is_plan_for(f, *options, live, plan),
{
    if f.url.as_str().is_empty() {
        return Err(VideoError::VideoSourceNotFound);
    }
    if f.is_hls {
        if live {
            return Ok(StreamPlan::Live { stream_url: f.url });
        } else {
            return Err(VideoError::LiveStreamNotSupported);
        }
    }
    let dl_chunk_size = match options.download_options.dl_chunk_size {
        Some(size) => size,
        None => DEFAULT_CHUNK_SIZE,
    };
    let content_length = match &f.content_length {
        Some(text) => match parse_bounded(text.as_str().as_bytes(), u64::MAX) {
            Some(v) => v,
            None => 0,
        },
        None => 0,
    };
    Ok(StreamPlan::NonLive { link: f.url, content_length, dl_chunk_size, start: 0, end: dl_chunk_size })
}

/// Plans the streaming of a video: selects a format by `options` and says
/// how it is to be streamed. Without a format, or with one that has no
/// address, the error says that there is no source. An HLS format is
/// streamed live, where `live` says that live streams are carried. Every
/// other format is streamed in chunks of the size that the options name, or
/// of 10 MiB, starting at 0.
pub fn plan_stream<P, C>(formats: &[VideoFormat], options: &VideoOptions<P, C>, live: bool) -> (plan:
    Result<StreamPlan, VideoError>) where
    P: Fn(&VideoFormat) -> bool,
    C: Fn(&VideoFormat, &VideoFormat) -> Ordering,

    requires
        can_apply(*options, formats@),
    ensures
        single_valued(*options, formats@) ==> match selection(formats@, *options) {
            Some(i) => exists|f: VideoFormat|
                f@ == formats@[i]@ && #[trigger] is_plan_for(f, *options, live, plan),
            None => plan == Err::<StreamPlan, VideoError>(VideoError::VideoSourceNotFound),
        },
{
    match choose_format(formats, options) {
        Ok(f) => {
            let plan = plan_for(f, options, live);
            assert(is_plan_for(f, *options, live, plan));
            plan
        },
        Err(_) => Err(VideoError::VideoSourceNotFound),
    }
}

/// Where a download in chunks stands: the next chunk starts at `start` and
/// is to end at `end`, of `content_length` bytes in all.
#[derive(Clone, Copy, Debug, PartialEq, Eq)]
pub struct ChunkState {
    pub start: u64,
    pub end: u64,
    pub content_length: u64,
    pub dl_chunk_size: u64,
}

/// The bytes that a request asks for.
#[derive(Clone, Copy, Debug, PartialEq, Eq)]
pub enum ChunkRange {
    /// From the first offset to the second, both included.
    Between(u64, u64),
    /// From the offset to the end of the content.
    From(u64),
}

/// The sum of two numbers, or the greatest number of 64 bits where the sum
/// is greater.
pub open spec fn capped_sum(a: u64, b: u64) -> u64 {
    if a + b > u64::MAX {
        u64::MAX
    } else {
        (a + b) as u64
    }
}

/// The request for the next chunk, and where the download stands after it;
/// `None` after the last chunk. A chunk that would reach the end of the
/// content, or that would end before it starts, is the last one and takes
/// all that is left.
pub open spec fn next_chunk_of(state: ChunkState) -> (ChunkRange, Option<ChunkState>) {
    if state.end >= state.content_length || state.end < state.start {
        (ChunkRange::From(state.start), None)
    } else {
        (
            ChunkRange::Between(state.start, state.end),
            Some(
                ChunkState {
                    start: (state.end + 1) as u64,
                    end: capped_sum(state.end, state.dl_chunk_size),
                    content_length: state.content_length,
                    dl_chunk_size: state.dl_chunk_size,
                },
            ),
        )
    }
}

/// Says which bytes are asked for next, and where the download stands
/// after that request.
pub fn next_chunk(state: &ChunkState) -> (r: (ChunkRange, Option<ChunkState>))
    ensures
        r == next_chunk_of(*state),
{
    if state.end >= state.content_length || state.end < state.start {
        (ChunkRange::From(state.start), None)
    } else {
        let end = match state.end.checked_add(state.dl_chunk_size) {
            Some(end) => end,
            None => u64::MAX,
        };
        (
            ChunkRange::Between(state.start, state.end),
            Some(
                ChunkState {
                    start: state.end + 1,
                    end,
                    content_length: state.content_length,
                    dl_chunk_size: state.dl_chunk_size,
                },
            ),
        )
    }
}

} // verus!
