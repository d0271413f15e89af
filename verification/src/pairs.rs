//! Query parameters as pairs of a name and a value.

use crate::text::{byte_len, same_text};
use vstd::prelude::*;
use vstd::string::*;
use vstd::utf8::*;

verus! {

/// The characters of a pair of texts.
pub open spec fn pair_view(p: (String, String)) -> (Seq<char>, Seq<char>) {
    (p.0@, p.1@)
}

/// The characters of each pair of a list.
pub open spec fn pairs_view(pairs: Seq<(String, String)>) -> Seq<(Seq<char>, Seq<char>)> {
    pairs.map_values(|p: (String, String)| pair_view(p))
}

/// `pairs` with `value` in place of the value of each pair named `name`.
pub open spec fn with_value(
    pairs: Seq<(Seq<char>, Seq<char>)>,
    name: Seq<char>,
    value: Seq<char>,
) -> Seq<(Seq<char>, Seq<char>)> {
    pairs.map_values(
        |p: (Seq<char>, Seq<char>)|
            if p.0 == name {
                (p.0, value)
            } else {
                p
            },
    )
}

/// Some pair of `pairs` is named `name`.
pub open spec fn has_name(pairs: Seq<(Seq<char>, Seq<char>)>, name: Seq<char>) -> bool {
    exists|i: int| 0 <= i < pairs.len() && (#[trigger] pairs[i]).0 == name
}

/// `pairs` with the parameter `name` set to `value`: in place of the value
/// of each pair of that name, or as a new last pair where there is none.
pub open spec fn with_param(
    pairs: Seq<(Seq<char>, Seq<char>)>,
    name: Seq<char>,
    value: Seq<char>,
) -> Seq<(Seq<char>, Seq<char>)> {
    if has_name(pairs, name) {
        with_value(pairs, name, value)
    } else {
        with_value(pairs, name, value).push((name, value))
    }
}

/// The value of the first pair named `name`.
pub open spec fn first_value(pairs: Seq<(Seq<char>, Seq<char>)>, name: Seq<char>) -> Option<
    Seq<char>,
>
    decreases pairs.len(),
{
    if pairs.len() == 0 {
        None
    } else if pairs[0].0 == name {
        Some(pairs[0].1)
    } else {
        first_value(pairs.drop_first(), name)
    }
}

/// The number of bytes that the names and values of `pairs` take together.
pub open spec fn pairs_bytes(pairs: Seq<(Seq<char>, Seq<char>)>) -> nat
    decreases pairs.len(),
{
    if pairs.len() == 0 {
        0
    } else {
        pairs_bytes(pairs.drop_last()) + encode_utf8(pairs.last().0).len() + encode_utf8(
            pairs.last().1,
        ).len()
    }
}

/// The most bytes of a text, and the most pairs and bytes of a list of
/// pairs, that are put into an address.
pub const SIZE_LIMIT: usize = 0x1000_0000;

/// Whether `pairs` is small enough to be put into an address.
pub open spec fn pairs_fit(pairs: Seq<(Seq<char>, Seq<char>)>) -> bool {
    pairs.len() <= SIZE_LIMIT && pairs_bytes(pairs) <= SIZE_LIMIT
}

/// Whether `text` is small enough to be put into an address.
pub open spec fn text_fits(text: Seq<char>) -> bool {
    encode_utf8(text).len() <= SIZE_LIMIT
}

/// Whether `pairs` is small enough to be put into an address.
pub fn check_pairs_fit(pairs: &Vec<(String, String)>) -> (r: bool)
    ensures
        r == pairs_fit(pairs_view(pairs@)),
{
    if pairs.len() > SIZE_LIMIT {
        return false;
    }
    let ghost all = pairs_view(pairs@);
    let mut total: usize = 0;
    let mut i: usize = 0;
    assert(all.subrange(0, 0) =~= Seq::<(Seq<char>, Seq<char>)>::empty());
    while i < pairs.len()
        invariant
            i <= pairs.len(),
            all == pairs_view(pairs@),
            total == pairs_bytes(all.subrange(0, i as int)),
            total <= SIZE_LIMIT,
            pairs.len() <= SIZE_LIMIT,
        decreases pairs.len() - i,
    {
        proof {
            assert(all.subrange(0, i + 1).drop_last() =~= all.subrange(0, i as int));
            assert(all.subrange(0, i + 1).last() == pair_view(pairs@[i as int]));
            lemma_pairs_bytes_grow(all, i + 1);
        }
        let a = byte_len(pairs[i].0.as_str());
        let b = byte_len(pairs[i].1.as_str());
        if a > SIZE_LIMIT - total || b > SIZE_LIMIT - total - a {
            return false;
        }
        total = total + a + b;
        i += 1;
    }
    assert(all.subrange(0, pairs.len() as int) =~= all);
    true
}

/// The first pairs of a list take no more bytes than all of them.
pub proof fn lemma_pairs_bytes_grow(pairs: Seq<(Seq<char>, Seq<char>)>, i: int)
    requires
        0 <= i <= pairs.len(),
    ensures
        pairs_bytes(pairs.subrange(0, i)) <= pairs_bytes(pairs),
    decreases pairs.len(),
{
    if i == pairs.len() {
        assert(pairs.subrange(0, i) =~= pairs);
    } else {
        assert(pairs.drop_last().subrange(0, i) =~= pairs.subrange(0, i));
        lemma_pairs_bytes_grow(pairs.drop_last(), i);
    }
}

/// Whether `text` is small enough to be put into an address.
pub fn check_text_fits(text: &str) -> (r: bool)
    ensures
        r == text_fits(text@),
{
    byte_len(text) <= SIZE_LIMIT
}

/// The value of the first pair named `name`.
pub fn find_value(pairs: &Vec<(String, String)>, name: &str) -> (r: Option<String>)
    ensures
        match r {
            Some(v) => first_value(pairs_view(pairs@), name@) == Some(v@),
            None => first_value(pairs_view(pairs@), name@) is None,
        },
{
    let ghost all = pairs_view(pairs@);
    let mut i: usize = 0;
    assert(all.subrange(0, all.len() as int) =~= all);
    while i < pairs.len()
        invariant
            i <= pairs.len(),
            all == pairs_view(pairs@),
            first_value(all.subrange(i as int, all.len() as int), name@) == first_value(
                all,
                name@,
            ),
        decreases pairs.len() - i,
    {
        let ghost rest = all.subrange(i as int, all.len() as int);
        assert(rest[0] == pair_view(pairs@[i as int]));
        assert(rest.drop_first() =~= all.subrange(i + 1, all.len() as int));
        if same_text(pairs[i].0.as_str(), name) {
            return Some(pairs[i].1.clone());
        }
        i += 1;
    }
    None
}

/// A copy of `pairs` with `value` in place of the value of each pair named
/// `name`, and whether there was such a pair.
pub fn replace_value(pairs: &Vec<(String, String)>, name: &str, value: &str) -> (r: (
    Vec<(String, String)>,
    bool,
))
    ensures
        pairs_view(r.0@) == with_value(pairs_view(pairs@), name@, value@),
        r.1 == has_name(pairs_view(pairs@), name@),
{
    let ghost all = pairs_view(pairs@);
    let mut out: Vec<(String, String)> = Vec::new();
    let mut found = false;
    let mut i: usize = 0;
    while i < pairs.len()
        invariant
            i <= pairs.len(),
            all == pairs_view(pairs@),
            out.len() == i,
            forall|k: int|
                0 <= k < i ==> pair_view(#[trigger] out@[k]) == with_value(all, name@, value@)[k],
            found == (exists|k: int| 0 <= k < i && (#[trigger] all[k]).0 == name@),
        decreases pairs.len() - i,
    {
        assert(all[i as int] == pair_view(pairs@[i as int]));
        let entry = if same_text(pairs[i].0.as_str(), name) {
            found = true;
            (pairs[i].0.clone(), value.to_owned())
        } else {
            (pairs[i].0.clone(), pairs[i].1.clone())
        };
        out.push(entry);
        i += 1;
    }
    assert(pairs_view(out@) =~= with_value(all, name@, value@));
    (out, found)
}

/// A copy of `pairs` with the parameter `name` set to `value`.
pub fn set_param(pairs: &Vec<(String, String)>, name: &str, value: &str) -> (r: Vec<
    (String, String),
>)
    ensures
        pairs_view(r@) == with_param(pairs_view(pairs@), name@, value@),
{
    let (mut out, found) = replace_value(pairs, name, value);
    if !found {
        let ghost before = pairs_view(out@);
        let entry = (name.to_owned(), value.to_owned());
        out.push(entry);
        assert(pairs_view(out@) =~= before.push((name@, value@)));
    }
    out
}

} // verus!
