//! Byte-level helpers for UTF-8 text: offsets that fall between characters,
//! and slices taken by byte offset.

use vstd::prelude::*;
use vstd::string::*;
use vstd::utf8::*;

verus! {

/// A position right after an ASCII byte lies between two characters.
pub proof fn lemma_boundary_after_ascii(bytes: Seq<u8>, k: int)
    requires
        valid_utf8(bytes),
        0 < k <= bytes.len(),
        bytes[k - 1] <= 0x7f,
    ensures
        is_char_boundary(bytes, k),
    decreases bytes.len(),
{
    let n = length_of_first_scalar(bytes);
    if k - 1 < n {
        reveal_with_fuel(is_char_boundary, 2);
    } else {
        lemma_boundary_after_ascii(pop_first_scalar(bytes), k - n);
    }
}

/// A character boundary of a text is also one of every prefix that reaches it.
pub proof fn lemma_boundary_in_prefix(bytes: Seq<u8>, from: int, to: int)
    requires
        valid_utf8(bytes),
        0 <= from <= to <= bytes.len(),
        is_char_boundary(bytes, from),
        is_char_boundary(bytes, to),
    ensures
        valid_utf8(bytes.subrange(0, to)),
        is_char_boundary(bytes.subrange(0, to), from),
{
    valid_utf8_split(bytes, to);
    let prefix = bytes.subrange(0, to);
    if from == to {
        is_char_boundary_start_end_of_seq(prefix);
    } else {
        is_char_boundary_iff_not_is_continuation_byte(bytes, from);
        is_char_boundary_iff_not_is_continuation_byte(prefix, from);
    }
}

/// Where a prefix of a text is text itself, it ends between two characters.
pub proof fn lemma_valid_prefix_ends_on_boundary(bytes: Seq<u8>, k: int)
    requires
        valid_utf8(bytes),
        0 <= k <= bytes.len(),
        valid_utf8(bytes.subrange(0, k)),
    ensures
        is_char_boundary(bytes, k),
    decreases bytes.len(),
{
    if k > 0 {
        let prefix = bytes.subrange(0, k);
        let n = length_of_first_scalar(bytes);
        assert(prefix[0] == bytes[0]);
        assert(n == length_of_first_scalar(prefix));
        assert(pop_first_scalar(prefix) =~= pop_first_scalar(bytes).subrange(0, k - n));
        lemma_valid_prefix_ends_on_boundary(pop_first_scalar(bytes), k - n);
    }
}

/// `needle` occurs in `hay` at offset `i`.
pub open spec fn occurs_at(hay: Seq<u8>, needle: Seq<u8>, i: int) -> bool {
    0 <= i && i + needle.len() <= hay.len() && hay.subrange(i, i + needle.len()) =~= needle
}

/// The first offset, not before `from`, at which `needle` occurs in `hay`.
pub open spec fn find_from(hay: Seq<u8>, needle: Seq<u8>, from: int) -> Option<int>
    decreases hay.len() - from,
{
    if from < 0 || from + needle.len() > hay.len() {
        None
    } else if occurs_at(hay, needle, from) {
        Some(from)
    } else {
        find_from(hay, needle, from + 1)
    }
}

/// The first offset at which `needle` occurs in `hay`.
pub open spec fn find_first(hay: Seq<u8>, needle: Seq<u8>) -> Option<int> {
    find_from(hay, needle, 0)
}

/// `needle` occurs somewhere in `hay`.
pub open spec fn contains_bytes(hay: Seq<u8>, needle: Seq<u8>) -> bool {
    find_first(hay, needle) is Some
}

/// What `find_from` finds is the first occurrence from `from` on, and it
/// finds none only where there is none.
pub proof fn lemma_find_from_is_first(hay: Seq<u8>, needle: Seq<u8>, from: int)
    requires
        0 <= from,
    ensures
        match find_from(hay, needle, from) {
            Some(i) => from <= i && occurs_at(hay, needle, i) && forall|j: int|
                from <= j < i ==> !occurs_at(hay, needle, j),
            None => forall|j: int| from <= j ==> !occurs_at(hay, needle, j),
        },
    decreases hay.len() - from,
{
    if from + needle.len() > hay.len() {
    } else if occurs_at(hay, needle, from) {
    } else {
        lemma_find_from_is_first(hay, needle, from + 1);
    }
}

/// An occurrence with none before it is what `find_from` finds.
pub proof fn lemma_first_occurrence_is_found(hay: Seq<u8>, needle: Seq<u8>, from: int, i: int)
    requires
        0 <= from <= i,
        occurs_at(hay, needle, i),
        forall|j: int| from <= j < i ==> !occurs_at(hay, needle, j),
    ensures
        find_from(hay, needle, from) == Some(i),
{
    lemma_find_from_is_first(hay, needle, from);
}

/// Where one text occurs in another, it starts and ends between two
/// characters of it. (An empty one occurs at every offset, so there the
/// start has to be known.)
pub proof fn lemma_occurrence_on_boundaries(hay: Seq<u8>, needle: Seq<u8>, i: int)
    requires
        valid_utf8(hay),
        valid_utf8(needle),
        occurs_at(hay, needle, i),
        needle.len() == 0 ==> is_char_boundary(hay, i),
    ensures
        is_char_boundary(hay, i),
        is_char_boundary(hay, i + needle.len()),
{
    let k = needle.len() as int;
    if k > 0 {
        is_char_boundary_start_end_of_seq(needle);
        is_char_boundary_iff_not_is_continuation_byte(needle, 0);
        assert(hay.subrange(i, i + k)[0] == hay[i]);
        is_char_boundary_iff_not_is_continuation_byte(hay, i);
    }
    if i + k == hay.len() {
        is_char_boundary_start_end_of_seq(hay);
    } else {
        valid_utf8_split(hay, i);
        let rest = hay.subrange(i, hay.len() as int);
        assert(rest.subrange(0, k) =~= hay.subrange(i, i + k));
        lemma_valid_prefix_ends_on_boundary(rest, k);
        is_char_boundary_iff_not_is_continuation_byte(rest, k);
        assert(rest[k] == hay[i + k]);
        is_char_boundary_iff_not_is_continuation_byte(hay, i + k);
    }
}

/// Whether `needle` occurs in `hay` at offset `i`.
fn matches_at(hay: &[u8], needle: &[u8], i: usize) -> (r: bool)
    requires
        i + needle@.len() <= hay@.len(),
    ensures
        r == occurs_at(hay@, needle@, i as int),
{
    let n = hay.len();
    let m = needle.len();
    let mut j: usize = 0;
    while j < m
        invariant
            n == hay@.len(),
            m == needle@.len(),
            i + m <= n,
            j <= m,
            forall|k: int| 0 <= k < j ==> hay@[i + k] == needle@[k],
        decreases m - j,
    {
        if hay[i + j] != needle[j] {
            assert(hay@.subrange(i as int, i + m)[j as int] != needle@[j as int]);
            return false;
        }
        j += 1;
    }
    true
}

/// Searches `hay` for `needle` from offset `from` on.
pub fn find_bytes(hay: &[u8], needle: &[u8], from: usize) -> (r: Option<usize>)
    ensures
        match r {
            Some(i) => find_from(hay@, needle@, from as int) == Some(i as int),
            None => find_from(hay@, needle@, from as int) is None,
        },
{
    let n = hay.len();
    let m = needle.len();
    if m > n || from > n - m {
        return None;
    }
    let mut i: usize = from;
    while i <= n - m
        invariant
            n == hay@.len(),
            m == needle@.len(),
            m <= n,
            from <= i,
            find_from(hay@, needle@, i as int) == find_from(hay@, needle@, from as int),
        decreases n - i,
    {
        if matches_at(hay, needle, i) {
            return Some(i);
        }
        i += 1;
    }
    None
}

/// The pieces of `s` from offset `from` on that `sep` separates: what lies
/// before each occurrence of `sep`, taken from left to right, and what is
/// left after the last.
pub open spec fn split_from(s: Seq<u8>, sep: Seq<u8>, from: int) -> Seq<Seq<u8>>
    decreases s.len() - from,
    when sep.len() > 0 && from >= 0
{
    match find_from(s, sep, from) {
        Some(k) => {
            proof {
                lemma_find_from_is_first(s, sep, from);
            }
            seq![s.subrange(from, k)] + split_from(s, sep, k + sep.len())
        },
        None => seq![s.subrange(from, s.len() as int)],
    }
}

/// The pieces of `s` that `sep` separates.
pub open spec fn split_on(s: Seq<u8>, sep: Seq<u8>) -> Seq<Seq<u8>> {
    split_from(s, sep, 0)
}

/// What each slice of a list holds.
pub open spec fn slices_view(pieces: Seq<&[u8]>) -> Seq<Seq<u8>> {
    pieces.map_values(|p: &[u8]| p@)
}

/// Splits `s` at each occurrence of `sep`.
pub fn split_bytes<'a>(s: &'a [u8], sep: &[u8]) -> (pieces: Vec<&'a [u8]>)
    requires
        sep@.len() > 0,
    ensures
        slices_view(pieces@) == split_on(s@, sep@),
        pieces.len() >= 1,
{
    let n = s.len();
    let m = sep.len();
    let mut pieces: Vec<&'a [u8]> = Vec::new();
    let mut from: usize = 0;
    assert(slices_view(pieces@) =~= Seq::<Seq<u8>>::empty());
    loop
        invariant
            n == s@.len(),
            m == sep@.len(),
            m > 0,
            from <= n,
            slices_view(pieces@) + split_from(s@, sep@, from as int) == split_on(s@, sep@),
        decreases n - from,
    {
        let ghost so_far = slices_view(pieces@);
        proof {
            lemma_find_from_is_first(s@, sep@, from as int);
        }
        match find_bytes(s, sep, from) {
            Some(k) => {
                let piece = vstd::slice::slice_subrange(s, from, k);
                pieces.push(piece);
                assert(slices_view(pieces@) =~= so_far.push(piece@));
                assert(so_far + (seq![s@.subrange(from as int, k as int)] + split_from(
                    s@,
                    sep@,
                    k + m,
                )) =~= so_far.push(piece@) + split_from(s@, sep@, k + m));
                from = k + m;
            },
            None => {
                let piece = vstd::slice::slice_subrange(s, from, n);
                pieces.push(piece);
                assert(slices_view(pieces@) =~= so_far.push(piece@));
                assert(so_far + seq![s@.subrange(from as int, n as int)] =~= so_far.push(piece@));
                return pieces;
            },
        }
    }
}

/// The bytes of each text of a list.
pub open spec fn strs_bytes(pieces: Seq<&str>) -> Seq<Seq<u8>> {
    pieces.map_values(|p: &str| p.spec_bytes())
}

/// Splits the text `s` at each occurrence of `sep`, which is not empty.
pub fn split_text<'a>(s: &'a str, sep: &str) -> (pieces: Vec<&'a str>)
    requires
        sep.spec_bytes().len() > 0,
    ensures
        strs_bytes(pieces@) == split_on(s.spec_bytes(), sep.spec_bytes()),
        pieces.len() >= 1,
{
    let n = byte_len(s);
    let m = byte_len(sep);
    let mut pieces: Vec<&'a str> = Vec::new();
    let mut from: usize = 0;
    proof {
        encode_utf8_valid_utf8(s@);
        is_char_boundary_start_end_of_seq(s.spec_bytes());
    }
    assert(strs_bytes(pieces@) =~= Seq::<Seq<u8>>::empty());
    loop
        invariant
            n == s.spec_bytes().len(),
            m == sep.spec_bytes().len(),
            m > 0,
            from <= n,
            valid_utf8(s.spec_bytes()),
            is_char_boundary(s.spec_bytes(), from as int),
            is_char_boundary(s.spec_bytes(), n as int),
            strs_bytes(pieces@) + split_from(s.spec_bytes(), sep.spec_bytes(), from as int)
                == split_on(s.spec_bytes(), sep.spec_bytes()),
        decreases n - from,
    {
        let ghost so_far = strs_bytes(pieces@);
        let ghost hay = s.spec_bytes();
        match find_in(s, sep, from) {
            Some(k) => {
                let piece = slice_bytes(s, from, k);
                pieces.push(piece);
                assert(strs_bytes(pieces@) =~= so_far.push(piece.spec_bytes()));
                assert(so_far + (seq![hay.subrange(from as int, k as int)] + split_from(
                    hay,
                    sep.spec_bytes(),
                    k + m,
                )) =~= so_far.push(piece.spec_bytes()) + split_from(hay, sep.spec_bytes(), k + m));
                from = k + m;
            },
            None => {
                let piece = slice_bytes(s, from, n);
                pieces.push(piece);
                assert(strs_bytes(pieces@) =~= so_far.push(piece.spec_bytes()));
                assert(so_far + seq![hay.subrange(from as int, n as int)] =~= so_far.push(
                    piece.spec_bytes(),
                ));
                return pieces;
            },
        }
    }
}

/// The part of `s` between the byte offsets `from` and `to`.
pub fn slice_bytes<'a>(s: &'a str, from: usize, to: usize) -> (r: &'a str)
    requires
        from <= to <= s.spec_bytes().len(),
        is_char_boundary(s.spec_bytes(), from as int),
        is_char_boundary(s.spec_bytes(), to as int),
    ensures
        r.spec_bytes() == s.spec_bytes().subrange(from as int, to as int),
{
    proof {
        encode_utf8_valid_utf8(s@);
        lemma_boundary_in_prefix(s.spec_bytes(), from as int, to as int);
    }
    let (head, _) = s.split_at(to);
    let (_, tail) = head.split_at(from);
    assert(head.spec_bytes().subrange(from as int, to as int) =~= s.spec_bytes().subrange(
        from as int,
        to as int,
    ));
    tail
}

/// The number of bytes in `s`.
pub fn byte_len(s: &str) -> (n: usize)
    ensures
        n == s.spec_bytes().len(),
{
    s.as_bytes().len()
}

/// Searches `hay` for `needle` from the byte offset `from` on.
pub fn find_in(hay: &str, needle: &str, from: usize) -> (r: Option<usize>)
    ensures
        match r {
            Some(i) => {
                &&& find_from(hay.spec_bytes(), needle.spec_bytes(), from as int) == Some(i as int)
                &&& occurs_at(hay.spec_bytes(), needle.spec_bytes(), i as int)
                &&& from <= i
                &&& i + needle.spec_bytes().len() <= hay.spec_bytes().len()
                &&& (needle.spec_bytes().len() > 0 || is_char_boundary(
                    hay.spec_bytes(),
                    from as int,
                )) ==> is_char_boundary(hay.spec_bytes(), i as int) && is_char_boundary(
                    hay.spec_bytes(),
                    i + needle.spec_bytes().len(),
                )
            },
            None => find_from(hay.spec_bytes(), needle.spec_bytes(), from as int) is None,
        },
{
    let r = find_bytes(hay.as_bytes(), needle.as_bytes(), from);
    proof {
        encode_utf8_valid_utf8(hay@);
        encode_utf8_valid_utf8(needle@);
        lemma_find_from_is_first(hay.spec_bytes(), needle.spec_bytes(), from as int);
        if r is Some && (needle.spec_bytes().len() > 0 || is_char_boundary(
            hay.spec_bytes(),
            from as int,
        )) {
            lemma_occurrence_on_boundaries(hay.spec_bytes(), needle.spec_bytes(), r->0 as int);
        }
    }
    r
}

/// Whether `needle` occurs in `hay`.
pub fn contains_str(hay: &str, needle: &str) -> (r: bool)
    ensures
        r == contains_bytes(hay.spec_bytes(), needle.spec_bytes()),
{
    find_bytes(hay.as_bytes(), needle.as_bytes(), 0).is_some()
}

/// The bytes of two texts put together are the bytes of the one followed by
/// the bytes of the other.
pub proof fn lemma_encode_concat(a: Seq<char>, b: Seq<char>)
    ensures
        encode_utf8(a + b) == encode_utf8(a) + encode_utf8(b),
    decreases a.len(),
{
    if a.len() == 0 {
        assert(a + b =~= b);
        assert(encode_utf8(a) + encode_utf8(b) =~= encode_utf8(b));
    } else {
        assert((a + b).drop_first() =~= a.drop_first() + b);
        lemma_encode_concat(a.drop_first(), b);
        assert(encode_utf8(a + b) =~= encode_utf8(a) + encode_utf8(b));
    }
}

/// Appends `t` to `s`.
pub fn append(s: &mut String, t: &str)
    ensures
        final(s)@ == old(s)@ + t@,
        encode_utf8(final(s)@) == encode_utf8(old(s)@) + t.spec_bytes(),
{
    proof {
        lemma_encode_concat(s@, t@);
    }
    s.append(t);
}

/// Keeps every byte but the line feed.
pub open spec fn kept_byte() -> spec_fn(u8) -> bool {
    |b: u8| b != 0x0a
}

/// `s` with its line feeds taken out.
pub open spec fn without_newlines(s: Seq<u8>) -> Seq<u8> {
    s.filter(kept_byte())
}

proof fn lemma_no_newline_nothing_removed(s: Seq<u8>)
    requires
        forall|i: int| 0 <= i < s.len() ==> s[i] != 0x0a,
    ensures
        without_newlines(s) == s,
    decreases s.len(),
{
    reveal(Seq::filter);
    if s.len() > 0 {
        lemma_no_newline_nothing_removed(s.drop_last());
        assert(s.drop_last().push(s.last()) =~= s);
    }
}

proof fn lemma_without_newlines_segment(s: Seq<u8>, seg: int, i: int)
    requires
        0 <= seg <= i <= s.len(),
        forall|k: int| seg <= k < i ==> s[k] != 0x0a,
    ensures
        without_newlines(s.subrange(0, i)) == without_newlines(s.subrange(0, seg)) + s.subrange(
            seg,
            i,
        ),
        i < s.len() && s[i] == 0x0a ==> without_newlines(s.subrange(0, i + 1))
            == without_newlines(s.subrange(0, i)),
{
    reveal(Seq::filter);
    Seq::filter_distributes_over_add(s.subrange(0, seg), s.subrange(seg, i), kept_byte());
    assert(s.subrange(0, seg) + s.subrange(seg, i) =~= s.subrange(0, i));
    lemma_no_newline_nothing_removed(s.subrange(seg, i));
    if i < s.len() && s[i] == 0x0a {
        assert(s.subrange(0, i + 1).drop_last() =~= s.subrange(0, i));
    }
}

/// A copy of `s` without its line feeds.
pub fn strip_newlines(s: &str) -> (r: String)
    ensures
        encode_utf8(r@) == without_newlines(s.spec_bytes()),
{
    let bytes = s.as_bytes();
    let n = bytes.len();
    let mut out = String::new();
    let mut seg: usize = 0;
    let mut i: usize = 0;
    proof {
        encode_utf8_valid_utf8(s@);
        is_char_boundary_start_end_of_seq(bytes@);
        reveal(Seq::filter);
        assert(bytes@.subrange(0, 0) =~= Seq::<u8>::empty());
    }
    while i < n
        invariant
            bytes@ == s.spec_bytes(),
            valid_utf8(bytes@),
            n == bytes@.len(),
            seg <= i <= n,
            is_char_boundary(bytes@, seg as int),
            forall|k: int| seg <= k < i ==> bytes@[k] != 0x0a,
            encode_utf8(out@) == without_newlines(bytes@.subrange(0, seg as int)),
        decreases n - i,
    {
        if bytes[i] == 0x0a {
            proof {
                is_char_boundary_iff_not_is_continuation_byte(bytes@, i as int);
                lemma_boundary_after_ascii(bytes@, i + 1);
                lemma_without_newlines_segment(bytes@, seg as int, i as int);
            }
            append(&mut out, slice_bytes(s, seg, i));
            seg = i + 1;
        }
        i += 1;
    }
    proof {
        lemma_without_newlines_segment(bytes@, seg as int, n as int);
        assert(bytes@.subrange(0, n as int) =~= bytes@);
    }
    append(&mut out, slice_bytes(s, seg, n));
    out
}

/// Two texts have the same bytes only where they are the same text.
pub proof fn lemma_same_bytes_same_text(a: Seq<char>, b: Seq<char>)
    requires
        encode_utf8(a) == encode_utf8(b),
    ensures
        a == b,
{
    encode_utf8_decode_utf8(a);
    encode_utf8_decode_utf8(b);
}

/// Whether `a` and `b` are the same text.
pub fn same_text(a: &str, b: &str) -> (r: bool)
    ensures
        r == (a@ == b@),
{
    let x = a.as_bytes();
    let y = b.as_bytes();
    if x.len() != y.len() {
        return false;
    }
    let n = x.len();
    let mut i: usize = 0;
    while i < n
        invariant
            x@ == a.spec_bytes(),
            y@ == b.spec_bytes(),
            n == x@.len(),
            n == y@.len(),
            i <= n,
            forall|k: int| 0 <= k < i ==> x@[k] == y@[k],
        decreases n - i,
    {
        if x[i] != y[i] {
            return false;
        }
        i += 1;
    }
    proof {
        assert(x@ =~= y@);
        lemma_same_bytes_same_text(a@, b@);
    }
    true
}

/// A `Seq` of the one value, or of none.
pub open spec fn seq_of<T>(o: Option<T>) -> Seq<T> {
    match o {
        Some(x) => seq![x],
        None => Seq::empty(),
    }
}

/// The empty text.
pub fn empty_str() -> (r: &'static str)
    ensures
        r@ == Seq::<char>::empty(),
        r.spec_bytes() == Seq::<u8>::empty(),
{
    let r = "";
    proof {
        reveal_strlit("");
        assert(r@ =~= Seq::<char>::empty());
    }
    r
}

} // verus!
