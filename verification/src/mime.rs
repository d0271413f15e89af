//! Media types as the metadata of a video writes them: a type and a
//! subtype, and the list of codecs.

use crate::format::MimeType;
use crate::markers::is_word_byte;
use crate::ranking::texts_bytes;
use crate::text::{
    byte_len, find_first, find_from, find_in, same_text, slice_bytes, split_on, split_text,
    strs_bytes,
};
use vstd::prelude::*;
use vstd::string::*;
use vstd::utf8::*;

verus! {

/// The parts of a media type, as bytes.
pub struct MimeParts {
    /// The type and the subtype with the slash between them.
    pub mime: Seq<u8>,
    /// The subtype.
    pub container: Seq<u8>,
    pub codecs: Seq<Seq<u8>>,
    pub video_codec: Option<Seq<u8>>,
    pub audio_codec: Option<Seq<u8>>,
}

/// The bytes of a text that may be absent.
pub open spec fn some_bytes(text: Option<String>) -> Option<Seq<u8>> {
    match text {
        Some(t) => Some(encode_utf8(t@)),
        None => None,
    }
}

/// The parts of a `MimeType`, as bytes.
pub open spec fn mime_bytes(m: MimeType) -> MimeParts {
    MimeParts {
        mime: encode_utf8(m.mime@),
        container: encode_utf8(m.container@),
        codecs: texts_bytes(m.codecs@),
        video_codec: some_bytes(m.video_codec),
        audio_codec: some_bytes(m.audio_codec),
    }
}

/// Every byte of `s` is a letter, a digit or an underscore, and there is
/// one at least.
pub open spec fn is_word(s: Seq<u8>) -> bool {
    s.len() > 0 && forall|i: int| 0 <= i < s.len() ==> is_word_byte(#[trigger] s[i])
}

/// The text that separates the type and subtype from the codecs.
pub open spec fn codecs_opening() -> Seq<u8> {
    "; codecs=\"".spec_bytes()
}

/// The codec of the video track: the first codec of a video type.
pub open spec fn video_codec_of(kind: Seq<u8>, codecs: Seq<Seq<u8>>) -> Option<Seq<u8>> {
    if kind == "video".spec_bytes() && codecs.len() > 0 {
        Some(codecs[0])
    } else {
        None
    }
}

/// The codec of the audio track: the first codec of an audio type, the
/// second of any other.
pub open spec fn audio_codec_of(kind: Seq<u8>, codecs: Seq<Seq<u8>>) -> Option<Seq<u8>> {
    if kind == "audio".spec_bytes() {
        if codecs.len() > 0 {
            Some(codecs[0])
        } else {
            None
        }
    } else if codecs.len() > 1 {
        Some(codecs[1])
    } else {
        None
    }
}

/// The parts of the media type `text`, which has the form
/// `type/subtype; codecs="first, second"`: the type and the subtype are
/// words, and the codecs are what a comma and a space separate between the
/// quotes. `None` for a text of another form.
pub open spec fn mime_parts(text: Seq<u8>) -> Option<MimeParts> {
    match find_first(text, codecs_opening()) {
        Some(k) => {
            let mime = text.subrange(0, k);
            let from = k + codecs_opening().len();
            match (find_first(mime, "/".spec_bytes()), find_from(text, "\"".spec_bytes(), from)) {
                (Some(slash), Some(end)) => {
                    let kind = mime.subrange(0, slash);
                    let container = mime.subrange(slash + "/".spec_bytes().len(), k);
                    let codecs = split_on(text.subrange(from, end), ", ".spec_bytes());
                    if is_word(kind) && is_word(container) && ", ".spec_bytes().len() > 0 {
                        Some(
                            MimeParts {
                                mime,
                                container,
                                codecs,
                                video_codec: video_codec_of(kind, codecs),
                                audio_codec: audio_codec_of(kind, codecs),
                            },
                        )
                    } else {
                        None
                    }
                },
                _ => None,
            }
        },
        None => None,
    }
}

/// Whether `s` is a word.
fn word(s: &str) -> (r: bool)
    ensures
        r == is_word(s.spec_bytes()),
{
    let bytes = s.as_bytes();
    let n = bytes.len();
    if n == 0 {
        return false;
    }
    let mut i: usize = 0;
    while i < n
        invariant
            n == bytes@.len(),
            bytes@ == s.spec_bytes(),
            i <= n,
            forall|k: int| 0 <= k < i ==> is_word_byte(#[trigger] bytes@[k]),
        decreases n - i,
    {
        let b = bytes[i];
        if !((0x30 <= b && b <= 0x39) || (0x41 <= b && b <= 0x5a) || (0x61 <= b && b <= 0x7a) || b
            == 0x5f) {
            return false;
        }
        i += 1;
    }
    true
}

/// Owned copies of the texts of a list.
fn owned(pieces: &Vec<&str>) -> (r: Vec<String>)
    ensures
        texts_bytes(r@) == strs_bytes(pieces@),
        r.len() == pieces.len(),
{
    let mut out: Vec<String> = Vec::new();
    let mut i: usize = 0;
    while i < pieces.len()
        invariant
            i <= pieces.len(),
            out.len() == i,
            forall|k: int| 0 <= k < i ==> encode_utf8(#[trigger] out@[k]@) == pieces@[k].spec_bytes(),
        decreases pieces.len() - i,
    {
        out.push(pieces[i].to_owned());
        i += 1;
    }
    assert(texts_bytes(out@) =~= strs_bytes(pieces@));
    out
}

/// Reads a media type of the form `type/subtype; codecs="first, second"`.
pub fn parse_mime_type(text: &str) -> (r: Option<MimeType>)
    ensures
        match r {
            Some(m) => mime_parts(text.spec_bytes()) == Some(mime_bytes(m)),
            None => mime_parts(text.spec_bytes()) is None,
        },
{
    proof {
        encode_utf8_valid_utf8(text@);
        is_char_boundary_start_end_of_seq(text.spec_bytes());
    }
    let opening = "; codecs=\"";
    let n = byte_len(text);
    let k = match find_in(text, opening, 0) {
        Some(k) => k,
        None => {
            return None;
        },
    };
    let from = k + byte_len(opening);
    let mime = slice_bytes(text, 0, k);
    proof {
        encode_utf8_valid_utf8(mime@);
        is_char_boundary_start_end_of_seq(mime.spec_bytes());
    }
    let slash = match find_in(mime, "/", 0) {
        Some(slash) => slash,
        None => {
            return None;
        },
    };
    let end = match find_in(text, "\"", from) {
        Some(end) => end,
        None => {
            return None;
        },
    };
    let kind = slice_bytes(mime, 0, slash);
    let container = slice_bytes(mime, slash + byte_len("/"), k);
    assert(container.spec_bytes() =~= text.spec_bytes().subrange(0, k as int).subrange(
        slash + "/".spec_bytes().len(),
        k as int,
    ));
    if !word(kind) || !word(container) || byte_len(", ") == 0 {
        return None;
    }
    let listed = split_text(slice_bytes(text, from, end), ", ");
    let codecs = owned(&listed);
    let first = if codecs.len() > 0 {
        assert(texts_bytes(codecs@)[0] == encode_utf8(codecs@[0]@));
        Some(codecs[0].clone())
    } else {
        None
    };
    let second = if codecs.len() > 1 {
        assert(texts_bytes(codecs@)[1] == encode_utf8(codecs@[1]@));
        Some(codecs[1].clone())
    } else {
        None
    };
    let is_video = same_text(kind, "video");
    let is_audio = same_text(kind, "audio");
    proof {
        if kind.spec_bytes() == "video".spec_bytes() {
            crate::text::lemma_same_bytes_same_text(kind@, "video"@);
        }
        if kind.spec_bytes() == "audio".spec_bytes() {
            crate::text::lemma_same_bytes_same_text(kind@, "audio"@);
        }
    }
    let video_codec = if is_video {
        first.clone()
    } else {
        None
    };
    let audio_codec = if is_audio {
        first
    } else {
        second
    };
    Some(
        MimeType {
            mime: mime.to_owned(),
            container: container.to_owned(),
            codecs,
            video_codec,
            audio_codec,
        },
    )
}

} // verus!
