//! Function extraction: pulls the decipher function and the n-transform
//! function, each with what it depends on, out of a player script.

use crate::locator::{between, between_bytes};
use crate::scanner::{balanced_prefix, cut_after_js};
use crate::text::{
    append, byte_len, find_first, find_in, lemma_occurrence_on_boundaries, occurs_at, seq_of,
    slice_bytes, strip_newlines, without_newlines,
};
use vstd::prelude::*;
use vstd::string::*;
use vstd::utf8::*;

verus! {

/// The text that precedes the decipher function's name where it is called.
pub open spec fn decipher_call_left() -> Seq<u8> {
    "a.set(\"alr\",\"yes\");c&&(c=".spec_bytes()
}

/// The text that follows the decipher function's name where it is called.
pub open spec fn decipher_call_right() -> Seq<u8> {
    "(decodeURIC".spec_bytes()
}

/// The text that precedes the n-transform function's name where it is
/// called.
pub open spec fn n_call_left() -> Seq<u8> {
    "&&(b=a.get(\"n\"))&&(b=".spec_bytes()
}

/// The text that follows the n-transform function's name where it is called.
pub open spec fn n_call_right() -> Seq<u8> {
    "(b)".spec_bytes()
}

/// The text that precedes the name of the manipulations object in the
/// decipher function: the function splits its argument first.
pub open spec fn manipulations_use_left() -> Seq<u8> {
    "a=a.split(\"\");".spec_bytes()
}

/// The definition of the one-argument function `name`, cut out of `body`:
/// `var name=function(a)` and the balanced text that follows that signature
/// at its first occurrence. `None` when the signature does not occur or
/// nothing balanced follows it.
pub open spec fn function_definition(body: Seq<u8>, name: Seq<u8>) -> Option<Seq<u8>> {
    let signature = name + "=function(a)".spec_bytes();
    match find_first(body, signature) {
        Some(i) => match balanced_prefix(body.subrange(i + signature.len(), body.len() as int)) {
            Some(block) => Some("var ".spec_bytes() + signature + block),
            None => None,
        },
        None => None,
    }
}

/// The definition of the object `name`, cut out of `body`: `var name=` and
/// the balanced text that starts with the `{` after it, at the first
/// occurrence of `var name={`.
pub open spec fn object_definition(body: Seq<u8>, name: Seq<u8>) -> Option<Seq<u8>> {
    let head = "var ".spec_bytes() + name + "=".spec_bytes();
    match find_first(body, head + "{".spec_bytes()) {
        Some(i) => match balanced_prefix(body.subrange(i + head.len(), body.len() as int)) {
            Some(block) => Some(head + block),
            None => None,
        },
        None => None,
    }
}

/// What the decipher function `caller` needs beside itself: nothing where it
/// names no manipulations object, else that object's definition. `None` when
/// the object is named but its definition cannot be cut out.
pub open spec fn manipulations(body: Seq<u8>, caller: Seq<u8>) -> Option<Seq<u8>> {
    let name = between_bytes(caller, manipulations_use_left(), ".".spec_bytes());
    if name.len() == 0 {
        Some(Seq::empty())
    } else {
        object_definition(body, name)
    }
}

/// The decipher function of a player script, by name and source.
pub open spec fn decipher_function(body: Seq<u8>) -> Option<(Seq<u8>, Seq<u8>)> {
    let name = between_bytes(body, decipher_call_left(), decipher_call_right());
    if name.len() == 0 {
        None
    } else {
        match function_definition(body, name) {
            Some(def) => match manipulations(body, def) {
                Some(deps) => Some(
                    (
                        name,
                        without_newlines(deps + ";".spec_bytes() + def + ";".spec_bytes()),
                    ),
                ),
                None => None,
            },
            None => None,
        }
    }
}

/// The name of the n-transform function. Where the call site names an
/// element of an array, it is the content of that array's definition.
pub open spec fn n_function_name(body: Seq<u8>) -> Seq<u8> {
    let called = between_bytes(body, n_call_left(), n_call_right());
    match find_first(called, "[".spec_bytes()) {
        Some(k) => between_bytes(
            body,
            "var ".spec_bytes() + called.subrange(0, k) + "=[".spec_bytes(),
            "]".spec_bytes(),
        ),
        None => called,
    }
}

/// The n-transform function of a player script, by name and source.
pub open spec fn n_function(body: Seq<u8>) -> Option<(Seq<u8>, Seq<u8>)> {
    let name = n_function_name(body);
    if name.len() == 0 {
        None
    } else {
        match function_definition(body, name) {
            Some(def) => Some((name, without_newlines(def + ";".spec_bytes()))),
            None => None,
        }
    }
}

/// The functions of a player script: the decipher function, then the
/// n-transform function, each left out where it cannot be extracted.
pub open spec fn player_functions(body: Seq<u8>) -> Seq<(Seq<u8>, Seq<u8>)> {
    seq_of(decipher_function(body)) + seq_of(n_function(body))
}

/// The bytes of a name and of a source.
pub open spec fn function_bytes(f: (String, String)) -> (Seq<u8>, Seq<u8>) {
    (encode_utf8(f.0@), encode_utf8(f.1@))
}

/// The bytes of each function of a list.
pub open spec fn functions_bytes(fs: Seq<(String, String)>) -> Seq<(Seq<u8>, Seq<u8>)> {
    fs.map_values(|f: (String, String)| function_bytes(f))
}

/// A player script has two functions at most: the decipher function, where
/// there is one, comes first, and each function has a name.
pub proof fn lemma_two_functions_at_most(body: Seq<u8>)
    ensures
        player_functions(body).len() <= 2,
        decipher_function(body) matches Some(f) ==> player_functions(body)[0] == f && f.0.len()
            > 0,
        n_function(body) matches Some(f) ==> player_functions(body).last() == f && f.0.len() > 0,
        player_functions(body).len() == 2 ==> decipher_function(body) is Some && n_function(body)
            is Some,
{
}

/// The text of `body` from where `head` ends, for a `head + rest` found at
/// offset `i`.
fn text_after<'a>(body: &'a str, i: usize, head: &str, Ghost(rest): Ghost<Seq<u8>>) -> (r: &'a str)
    requires
        occurs_at(body.spec_bytes(), head.spec_bytes() + rest, i as int),
        is_char_boundary(body.spec_bytes(), i as int),
    ensures
        r.spec_bytes() == body.spec_bytes().subrange(
            i + head.spec_bytes().len(),
            body.spec_bytes().len() as int,
        ),
{
    let n = byte_len(body);
    let k = byte_len(head);
    proof {
        let hay = body.spec_bytes();
        let whole = head.spec_bytes() + rest;
        encode_utf8_valid_utf8(body@);
        encode_utf8_valid_utf8(head@);
        assert(hay.subrange(i as int, i + k) =~= hay.subrange(
            i as int,
            i + whole.len(),
        ).subrange(0, k as int));
        assert(whole.subrange(0, k as int) =~= head.spec_bytes());
        lemma_occurrence_on_boundaries(hay, head.spec_bytes(), i as int);
        is_char_boundary_start_end_of_seq(hay);
    }
    slice_bytes(body, i + k, n)
}

fn extract_function_definition(body: &str, name: &str) -> (r: Option<String>)
    ensures
        match r {
            Some(def) => function_definition(body.spec_bytes(), name.spec_bytes()) == Some(
                encode_utf8(def@),
            ),
            None => function_definition(body.spec_bytes(), name.spec_bytes()) is None,
        },
{
    let mut signature = String::new();
    append(&mut signature, name);
    append(&mut signature, "=function(a)");
    assert(encode_utf8(signature@) =~= name.spec_bytes() + "=function(a)".spec_bytes());
    proof {
        encode_utf8_valid_utf8(body@);
        is_char_boundary_start_end_of_seq(body.spec_bytes());
    }
    match find_in(body, signature.as_str(), 0) {
        Some(i) => {
            assert(encode_utf8(signature@) + Seq::<u8>::empty() =~= encode_utf8(signature@));
            let after = text_after(body, i, signature.as_str(), Ghost(Seq::empty()));
            match cut_after_js(after) {
                Some(block) => {
                    let mut def = String::new();
                    append(&mut def, "var ");
                    append(&mut def, signature.as_str());
                    append(&mut def, block);
                    assert(encode_utf8(def@) =~= "var ".spec_bytes() + encode_utf8(signature@)
                        + block.spec_bytes());
                    Some(def)
                },
                None => None,
            }
        },
        None => None,
    }
}

fn extract_object_definition(body: &str, name: &str) -> (r: Option<String>)
    ensures
        match r {
            Some(def) => object_definition(body.spec_bytes(), name.spec_bytes()) == Some(
                encode_utf8(def@),
            ),
            None => object_definition(body.spec_bytes(), name.spec_bytes()) is None,
        },
{
    let mut head = String::new();
    append(&mut head, "var ");
    append(&mut head, name);
    append(&mut head, "=");
    assert(encode_utf8(head@) =~= "var ".spec_bytes() + name.spec_bytes() + "=".spec_bytes());
    let mut opening = String::new();
    append(&mut opening, head.as_str());
    append(&mut opening, "{");
    assert(encode_utf8(opening@) =~= encode_utf8(head@) + "{".spec_bytes());
    proof {
        encode_utf8_valid_utf8(body@);
        is_char_boundary_start_end_of_seq(body.spec_bytes());
    }
    match find_in(body, opening.as_str(), 0) {
        Some(i) => {
            let after = text_after(body, i, head.as_str(), Ghost("{".spec_bytes()));
            match cut_after_js(after) {
                Some(block) => {
                    let mut def = String::new();
                    append(&mut def, head.as_str());
                    append(&mut def, block);
                    assert(encode_utf8(def@) =~= encode_utf8(head@) + block.spec_bytes());
                    Some(def)
                },
                None => None,
            }
        },
        None => None,
    }
}

fn extract_manipulations(body: &str, caller: &str) -> (r: Option<String>)
    ensures
        match r {
            Some(deps) => manipulations(body.spec_bytes(), caller.spec_bytes()) == Some(
                encode_utf8(deps@),
            ),
            None => manipulations(body.spec_bytes(), caller.spec_bytes()) is None,
        },
{
    let name = between(caller, "a=a.split(\"\");", ".");
    if byte_len(name) == 0 {
        let none = String::new();
        assert(encode_utf8(none@) =~= Seq::<u8>::empty());
        Some(none)
    } else {
        extract_object_definition(body, name)
    }
}

fn extract_decipher(body: &str, functions: &mut Vec<(String, String)>)
    ensures
        functions_bytes(final(functions)@) == functions_bytes(old(functions)@) + seq_of(
            decipher_function(body.spec_bytes()),
        ),
{
    let ghost before = functions_bytes(functions@);
    assert(before + Seq::empty() =~= before);
    let name = between(body, "a.set(\"alr\",\"yes\");c&&(c=", "(decodeURIC");
    if byte_len(name) != 0 {
        match extract_function_definition(body, name) {
            Some(def) => match extract_manipulations(body, def.as_str()) {
                Some(deps) => {
                    let mut source = deps;
                    append(&mut source, ";");
                    append(&mut source, def.as_str());
                    append(&mut source, ";");
                    let stripped = strip_newlines(source.as_str());
                    let mut owned = String::new();
                    append(&mut owned, name);
                    assert(encode_utf8(owned@) =~= name.spec_bytes());
                    let entry = (owned, stripped);
                    functions.push(entry);
                    assert(functions_bytes(functions@) =~= before + seq![function_bytes(entry)]);
                },
                None => {},
            },
            None => {},
        }
    }
}

fn extract_ncode(body: &str, functions: &mut Vec<(String, String)>)
    ensures
        functions_bytes(final(functions)@) == functions_bytes(old(functions)@) + seq_of(
            n_function(body.spec_bytes()),
        ),
{
    let ghost before = functions_bytes(functions@);
    assert(before + Seq::empty() =~= before);
    let called = between(body, "&&(b=a.get(\"n\"))&&(b=", "(b)");
    proof {
        encode_utf8_valid_utf8(called@);
        is_char_boundary_start_end_of_seq(called.spec_bytes());
    }
    let mut left = String::new();
    let name = match find_in(called, "[", 0) {
        Some(k) => {
            append(&mut left, "var ");
            append(&mut left, slice_bytes(called, 0, k));
            append(&mut left, "=[");
            assert(encode_utf8(left@) =~= "var ".spec_bytes() + called.spec_bytes().subrange(
                0,
                k as int,
            ) + "=[".spec_bytes());
            between(body, left.as_str(), "]")
        },
        None => called,
    };
    if byte_len(name) != 0 {
        match extract_function_definition(body, name) {
            Some(def) => {
                let mut source = def;
                append(&mut source, ";");
                let stripped = strip_newlines(source.as_str());
                let mut owned = String::new();
                append(&mut owned, name);
                assert(encode_utf8(owned@) =~= name.spec_bytes());
                let entry = (owned, stripped);
                functions.push(entry);
                assert(functions_bytes(functions@) =~= before + seq![function_bytes(entry)]);
            },
            None => {},
        }
    }
}

/// Extracts from a player script the functions that repair media URLs: the
/// decipher function first, then the n-transform function, each as its name
/// and a source that can be evaluated on its own. A function that cannot be
/// found or cut out is left out; the other is still returned.
pub fn extract_functions(body: String) -> (functions: Vec<(String, String)>)
    ensures
        functions_bytes(functions@) == player_functions(encode_utf8(body@)),
{
    let mut functions: Vec<(String, String)> = Vec::new();
    assert(functions_bytes(functions@) =~= Seq::empty());
    extract_decipher(body.as_str(), &mut functions);
    extract_ncode(body.as_str(), &mut functions);
    assert(Seq::<(Seq<u8>, Seq<u8>)>::empty() + seq_of(decipher_function(encode_utf8(body@)))
        =~= seq_of(decipher_function(encode_utf8(body@))));
    functions
}

} // verus!
