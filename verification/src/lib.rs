//! Media addresses of a video platform, repaired and ranked.
//!
//! The player script of the platform holds two obfuscated functions: one
//! deciphers the signature of a media address, the other transforms its
//! throttling parameter. This library cuts the two functions out of the
//! script (`scanner`, `locator`, `extract`, `player`), runs them in a script
//! engine (`engine`) to repair the addresses of the formats of a video
//! (`cipher`, `ncode`, `resolve`), and selects one format by the caller's
//! preferences (`ranking`, `select`, `selector`, `sorting`).
//!
//! What the library takes from other crates stands behind a few functions
//! whose contracts are taken on trust: the script engine (`engine`), the URL
//! parser (`urls`), the query-string parser (`query`), the
//! regular-expression engine (`patterns`) and the trimming of whitespace
//! (`video_id`). Everything else is proved.

pub mod cipher;
pub mod details;
pub mod duration;
pub mod engine;
pub mod extract;
pub mod format;
pub mod ip;
pub mod json;
pub mod locator;
pub mod markers;
pub mod mime;
pub mod ncode;
pub mod number;
pub mod pairs;
pub mod patterns;
pub mod player;
pub mod query;
pub mod ranking;
pub mod resolve;
pub mod scanner;
pub mod scanner_laws;
pub mod select;
pub mod select_laws;
pub mod selector;
pub mod sorting;
pub mod stream;
pub mod text;
pub mod urls;
pub mod video_id;

pub use cipher::{apply_signature, decipher, read_cipher_request, sign_url, CipherRequest};
pub use details::{clean_video_details, Embed, Place, Thumbnail, VideoDetails};
pub use duration::{checked_time_to_ms, time_to_ms};
pub use engine::{execute, script_outcome, ScriptError};
pub use extract::extract_functions;
pub use format::{
    DownloadOptions, MimeType, VideoError, VideoFormat, VideoOptions, VideoQuality,
    VideoSearchOptions,
};
pub use ip::{mix_address, normalize_ip, read_block, AddressBlock};
pub use json::{
    get_cver, get_text, is_age_restricted, is_not_yet_broadcasted, is_play_error, is_private_video,
    is_rental, is_verified, Json,
};
pub use locator::between;
pub use mime::parse_mime_type;
pub use ncode::{ncode, plan_n, settle_n, substitute_n, NPlan, ValueCache};
pub use player::{PlayerAction, PlayerFunctionSet};
pub use resolve::{
    add_format_meta, finish, parse_video_formats, read_entry, read_streaming_data,
    resolve_entry, resolve_formats, set_download_url, RawFormatEntry, SetDownloadURLValue,
    StreamingData,
};
pub use scanner::cut_after_js;
pub use select::filter_formats;
pub use selector::choose_format;
pub use video_id::{get_html5player, get_url_video_id, get_video_id, validate_id};
pub use stream::{next_chunk, plan_stream, ChunkRange, ChunkState, StreamPlan};
pub use sorting::{sort_formats, sort_formats_by, sort_formats_by_audio, sort_formats_by_video};
