//! The cipher transformer: signs the address held in a cipher query string
//! with the signature that the decipher function makes of its payload.

use crate::engine::{compiled_source, execute, outcome_view, ScriptError};
use crate::pairs::{
    check_pairs_fit, check_text_fits, has_name, pairs_fit, set_param, text_fits, with_param,
};
use crate::query::{field_view, parse_query_fields, query_fields};
use crate::text::same_text;
use crate::urls::{query_pairs_of, url_query_pairs, url_with_query, with_query_pairs};
use vstd::prelude::*;
use vstd::string::*;

verus! {

/// The text of the first field named `name`. `None` where there is no such
/// field or its value is no plain text.
pub open spec fn field_text(fields: Seq<(Seq<char>, Option<Seq<char>>)>, name: Seq<char>) -> Option<
    Seq<char>,
>
    decreases fields.len(),
{
    if fields.len() == 0 {
        None
    } else if fields[0].0 == name {
        fields[0].1
    } else {
        field_text(fields.drop_first(), name)
    }
}

/// What a cipher query string asks for.
pub struct CipherRequest {
    /// The address to sign.
    pub url: String,
    /// The ciphered payload.
    pub s: String,
    /// The name of the query parameter that takes the signature.
    pub sp: String,
}

/// What a `CipherRequest` holds.
pub struct CipherRequestView {
    pub url: Seq<char>,
    pub s: Seq<char>,
    pub sp: Seq<char>,
}

impl View for CipherRequest {
    type V = CipherRequestView;

    open spec fn view(&self) -> CipherRequestView {
        CipherRequestView { url: self.url@, s: self.s@, sp: self.sp@ }
    }
}

/// The request that `input` makes of a decipher function with the source
/// `source`: its fields `url` and `s`, and its field `sp` or, without one,
/// `signature`. `None` where the source is empty, where `input` is no query
/// string, or where it lacks `url` or `s`: then there is nothing to do.
pub open spec fn cipher_request(input: Seq<char>, source: Seq<char>) -> Option<CipherRequestView> {
    if source.len() == 0 {
        None
    } else {
        match query_fields(input) {
            Some(fields) => match (field_text(fields, "url"@), field_text(fields, "s"@)) {
                (Some(url), Some(s)) => Some(
                    CipherRequestView {
                        url,
                        s,
                        sp: match field_text(fields, "sp"@) {
                            Some(sp) => sp,
                            None => "signature"@,
                        },
                    },
                ),
                _ => None,
            },
            None => None,
        }
    }
}

/// `url` with the query parameter `sp` set to `signature`. It is `url`
/// itself where `url` is no absolute URL, or where it or its parameters are
/// too large to be put together again.
pub open spec fn signed_url(url: Seq<char>, sp: Seq<char>, signature: Seq<char>) -> Seq<char> {
    match url_query_pairs(url) {
        Some(pairs) => {
            let signed = with_param(pairs, sp, signature);
            if text_fits(url) && pairs_fit(signed) {
                match url_with_query(url, signed) {
                    Some(text) => text,
                    None => url,
                }
            } else {
                url
            }
        },
        None => url,
    }
}

/// What becomes of the address of a request once the decipher function has
/// run: signed with what it returned, or left as it is where it failed.
pub open spec fn deciphered(
    url: Seq<char>,
    sp: Seq<char>,
    outcome: Result<Seq<char>, ScriptError>,
) -> Seq<char> {
    match outcome {
        Ok(signature) => signed_url(url, sp, signature),
        Err(_) => url,
    }
}

/// The text of the first field named `name`.
fn text_of_field(fields: &Vec<(String, Option<String>)>, name: &str) -> (r: Option<String>)
    ensures
        match r {
            Some(t) => field_text(
                fields@.map_values(|x: (String, Option<String>)| field_view(x)),
                name@,
            ) == Some(t@),
            None => field_text(
                fields@.map_values(|x: (String, Option<String>)| field_view(x)),
                name@,
            ) is None,
        },
{
    let ghost all = fields@.map_values(|x: (String, Option<String>)| field_view(x));
    let mut i: usize = 0;
    assert(all.subrange(0, all.len() as int) =~= all);
    while i < fields.len()
        invariant
            i <= fields.len(),
            all == fields@.map_values(|x: (String, Option<String>)| field_view(x)),
            field_text(all.subrange(i as int, all.len() as int), name@) == field_text(all, name@),
        decreases fields.len() - i,
    {
        let ghost rest = all.subrange(i as int, all.len() as int);
        assert(rest[0] == field_view(fields@[i as int]));
        assert(rest.drop_first() =~= all.subrange(i + 1, all.len() as int));
        if same_text(fields[i].0.as_str(), name) {
            return match &fields[i].1 {
                Some(t) => Some(t.clone()),
                None => None,
            };
        }
        i += 1;
    }
    None
}

/// Reads a cipher query string: what it asks of a decipher function with
/// the source `source`, if anything.
pub fn read_cipher_request(input: &str, source: &str) -> (r: Option<CipherRequest>)
    ensures
        match r {
            Some(request) => cipher_request(input@, source@) == Some(request@),
            None => cipher_request(input@, source@) is None,
        },
{
    if source.is_empty() {
        return None;
    }
    match parse_query_fields(input) {
        Some(fields) => {
            let url = text_of_field(&fields, "url");
            let s = text_of_field(&fields, "s");
            match (url, s) {
                (Some(url), Some(s)) => {
                    let sp = match text_of_field(&fields, "sp") {
                        Some(sp) => sp,
                        None => "signature".to_owned(),
                    };
                    Some(CipherRequest { url, s, sp })
                },
                _ => None,
            }
        },
        None => None,
    }
}

/// Sets the query parameter `sp` of `url` to `signature`.
pub fn sign_url(url: &str, sp: &str, signature: &str) -> (r: String)
    ensures
        r@ == signed_url(url@, sp@, signature@),
{
    match query_pairs_of(url) {
        Some(pairs) => {
            let signed = set_param(&pairs, sp, signature);
            if check_text_fits(url) && check_pairs_fit(&signed) {
                match with_query_pairs(url, &signed) {
                    Some(text) => text,
                    None => url.to_owned(),
                }
            } else {
                url.to_owned()
            }
        },
        None => url.to_owned(),
    }
}

/// Finishes a request with the outcome of the decipher function: the
/// address signed with what the function returned, or the address as it is
/// where the function failed.
pub fn apply_signature(url: &str, sp: &str, outcome: Result<String, ScriptError>) -> (r: String)
    ensures
        r@ == deciphered(url@, sp@, outcome_view(outcome)),
{
    match outcome {
        Ok(signature) => sign_url(url, sp, signature.as_str()),
        Err(_) => url.to_owned(),
    }
}

/// `out` is what the cipher transformer may make of `input` with a decipher
/// function of the source `source`: `input` itself where it makes no
/// request; else the address of the request, signed with some signature, or
/// as it is where the function failed.
pub open spec fn deciphers_to(input: Seq<char>, source: Seq<char>, out: Seq<char>) -> bool {
    match cipher_request(input, source) {
        Some(request) => out == request.url || exists|signature: Seq<char>|
            out == #[trigger] signed_url(request.url, request.sp, signature),
        None => out == input,
    }
}

/// Repairs the address that a cipher query string holds. The string has the
/// fields `url`, `s` and, optionally, `sp`; the decipher function is given
/// by its name and its source. The function is run on `s`, and what it
/// returns becomes the value of the query parameter of `url` that `sp`
/// names, `signature` where there is no `sp`. With an empty source, or a
/// text that is no such query string, the text is returned as it is. Where
/// the function fails, or `url` is no URL, `url` is returned as it is.
pub fn decipher<'host>(
    url: &str,
    decipher_script_string: &(String, String),
    cipher_cache: &mut Option<(String, boa_engine::Context<'host>)>,
) -> (r: String)
    ensures
        deciphers_to(url@, decipher_script_string.1@, r@),
        cipher_request(url@, decipher_script_string.1@) is None ==> *final(cipher_cache) == *old(
            cipher_cache,
        ),
        *final(cipher_cache) == *old(cipher_cache) || compiled_source(*final(cipher_cache))
            == Some(decipher_script_string.1@),
{
    let name = decipher_script_string.0.as_str();
    let source = decipher_script_string.1.as_str();
    match read_cipher_request(url, source) {
        Some(request) => {
            let outcome = execute(cipher_cache, source, name, request.s.as_str());
            let ghost seen = outcome_view(outcome);
            let r = apply_signature(request.url.as_str(), request.sp.as_str(), outcome);
            proof {
                if let Ok(signature) = seen {
                    assert(r@ == signed_url(request@.url, request@.sp, signature));
                }
            }
            r
        },
        None => url.to_owned(),
    }
}

/// With an empty source the cipher transformer returns its input as it is.
pub proof fn lemma_empty_source_changes_nothing(input: Seq<char>, source: Seq<char>, out: Seq<char>)
    requires
        source.len() == 0,
        deciphers_to(input, source, out),
    ensures
        out == input,
{
}

/// Signing puts the signature under its name and leaves every other
/// parameter as it is: the parameters that are put together again are those
/// of the address, in their order, but for the value of `sp`.
pub proof fn lemma_signing_keeps_other_parameters(
    pairs: Seq<(Seq<char>, Seq<char>)>,
    sp: Seq<char>,
    signature: Seq<char>,
    i: int,
)
    requires
        0 <= i < pairs.len(),
    ensures
        with_param(pairs, sp, signature).len() >= pairs.len(),
        with_param(pairs, sp, signature)[i].0 == pairs[i].0,
        with_param(pairs, sp, signature)[i].1 == (if pairs[i].0 == sp {
            signature
        } else {
            pairs[i].1
        }),
        !has_name(pairs, sp) ==> with_param(pairs, sp, signature).last() == (sp, signature),
{
}

} // verus!
