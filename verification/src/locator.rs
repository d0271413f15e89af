//! Marker-based location: the text between two anchors.

use crate::text::{
    byte_len, empty_str, find_from, find_in, lemma_first_occurrence_is_found, occurs_at, slice_bytes,
};
use vstd::prelude::*;
use vstd::string::*;
use vstd::utf8::*;

verus! {

/// The part of `hay` strictly between the first occurrence of `left` and the
/// next occurrence of `right` after it; empty where either is missing.
pub open spec fn between_bytes(hay: Seq<u8>, left: Seq<u8>, right: Seq<u8>) -> Seq<u8> {
    match find_from(hay, left, 0) {
        Some(i) => match find_from(hay, right, i + left.len()) {
            Some(e) => hay.subrange(i + left.len(), e),
            None => Seq::empty(),
        },
        None => Seq::empty(),
    }
}

/// The text strictly between the first occurrence of `left` in `haystack`
/// and the next occurrence of `right` after it. Empty when either anchor is
/// absent.
pub fn between<'a>(haystack: &'a str, left: &'a str, right: &'a str) -> (r: &'a str)
    ensures
        r.spec_bytes() == between_bytes(
            haystack.spec_bytes(),
            left.spec_bytes(),
            right.spec_bytes(),
        ),
{
    proof {
        encode_utf8_valid_utf8(haystack@);
        is_char_boundary_start_end_of_seq(haystack.spec_bytes());
    }
    let n = byte_len(haystack);
    let start = match find_in(haystack, left, 0) {
        Some(i) => i + byte_len(left),
        None => {
            return empty_str();
        },
    };
    match find_in(haystack, right, start) {
        Some(end) => slice_bytes(haystack, start, end),
        None => empty_str(),
    }
}

/// Without the left anchor nothing is located.
pub proof fn lemma_between_without_left(hay: Seq<u8>, left: Seq<u8>, right: Seq<u8>)
    requires
        forall|j: int| !occurs_at(hay, left, j),
    ensures
        between_bytes(hay, left, right) == Seq::<u8>::empty(),
{
    crate::text::lemma_find_from_is_first(hay, left, 0);
}

/// Without a right anchor after the left one nothing is located.
pub proof fn lemma_between_without_right(hay: Seq<u8>, left: Seq<u8>, right: Seq<u8>)
    requires
        forall|j: int| !occurs_at(hay, right, j),
    ensures
        between_bytes(hay, left, right) == Seq::<u8>::empty(),
{
    crate::text::lemma_find_from_is_first(hay, left, 0);
    if find_from(hay, left, 0) is Some {
        crate::text::lemma_find_from_is_first(hay, right, find_from(hay, left, 0)->0 + left.len());
    }
}

/// With both anchors present and in order, the text between them is located
/// exactly: in `before + left + inner + right + after`, where `left` does not
/// start within `before` and `right` does not start within `inner`, it is
/// `inner`.
pub proof fn lemma_between_locates_interior(
    before: Seq<u8>,
    left: Seq<u8>,
    inner: Seq<u8>,
    right: Seq<u8>,
    after: Seq<u8>,
)
    requires
        forall|j: int|
            0 <= j < before.len() ==> !occurs_at(
                before + left + inner + right + after,
                left,
                j,
            ),
        forall|j: int|
            before.len() + left.len() <= j < before.len() + left.len() + inner.len()
                ==> !occurs_at(before + left + inner + right + after, right, j),
    ensures
        between_bytes(before + left + inner + right + after, left, right) == inner,
{
    let hay = before + left + inner + right + after;
    let i = before.len() as int;
    let start = i + left.len();
    let end = start + inner.len();
    assert(hay.subrange(i, start) =~= left);
    assert(hay.subrange(end, end + right.len()) =~= right);
    assert(hay.subrange(start, end) =~= inner);
    lemma_first_occurrence_is_found(hay, left, 0, i);
    lemma_first_occurrence_is_found(hay, right, start, end);
}

} // verus!
