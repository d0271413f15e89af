//! The n-transformer: replaces the throttling parameter `n` of an address
//! by what the n-transform function makes of it, and remembers each result.

use crate::engine::{execute, outcome_view, ScriptError};
use crate::pairs::{
    check_pairs_fit, check_text_fits, find_value, first_value, pairs_fit, replace_value,
    text_fits, with_value,
};
use crate::urls::{query_pairs_of, url_query_pairs, url_with_query, with_query_pairs};
use vstd::hash_map::StringHashMap;
use vstd::prelude::*;
use vstd::string::*;

verus! {

/// The results of the n-transform function for one batch of formats, by the
/// value they were computed from. A result is never replaced.
pub struct ValueCache {
    entries: StringHashMap<String>,
}

impl View for ValueCache {
    type V = Map<Seq<char>, Seq<char>>;

    closed spec fn view(&self) -> Map<Seq<char>, Seq<char>> {
        self.entries@.map_values(|v: String| v@)
    }
}

impl ValueCache {
    /// A cache that holds nothing.
    pub fn new() -> (r: ValueCache)
        ensures
            r@ == Map::<Seq<char>, Seq<char>>::empty(),
    {
        let r = ValueCache { entries: StringHashMap::new() };
        assert(r@ =~= Map::<Seq<char>, Seq<char>>::empty());
        r
    }

    /// The result remembered for `value`.
    pub fn get(&self, value: &str) -> (r: Option<String>)
        ensures
            match r {
                Some(result) => self@.contains_key(value@) && self@[value@] == result@,
                None => !self@.contains_key(value@),
            },
    {
        match self.entries.get(value) {
            Some(result) => Some(result.clone()),
            None => None,
        }
    }

    /// The number of results remembered.
    pub fn len(&self) -> (n: usize)
        ensures
            n == self@.len(),
    {
        assert(self@.dom() =~= self.entries@.dom());
        self.entries.len()
    }

    /// Remembers `result` for `value`, for which nothing is remembered yet.
    pub fn remember(&mut self, value: &str, result: &str)
        requires
            !old(self)@.contains_key(value@),
        ensures
            final(self)@ == old(self)@.insert(value@, result@),
    {
        self.entries.insert(value.to_owned(), result.to_owned());
        assert(self@ =~= old(self)@.insert(value@, result@));
    }
}

/// What is to be done with an address.
pub enum NPlan {
    /// Nothing: it is returned as it is.
    Unchanged,
    /// Its `n` is replaced by this remembered result.
    Cached(String),
    /// The n-transform function is run on this value of its `n`.
    Invoke(String),
}

/// What an `NPlan` holds.
pub enum NPlanView {
    Unchanged,
    Cached(Seq<char>),
    Invoke(Seq<char>),
}

impl View for NPlan {
    type V = NPlanView;

    open spec fn view(&self) -> NPlanView {
        match self {
            NPlan::Unchanged => NPlanView::Unchanged,
            NPlan::Cached(result) => NPlanView::Cached(result@),
            NPlan::Invoke(value) => NPlanView::Invoke(value@),
        }
    }
}

/// The value of the query parameter `n` of `url`: of the first, where there
/// are several. `None` where `url` has none or is no absolute URL.
pub open spec fn n_value(url: Seq<char>) -> Option<Seq<char>> {
    match url_query_pairs(url) {
        Some(pairs) => first_value(pairs, "n"@),
        None => None,
    }
}

/// What is to be done with `url`, given the source of the n-transform
/// function and what is remembered: nothing with an empty source or
/// without an `n`; else the substitution of what is remembered for that
/// `n`, or a run of the function where nothing is.
pub open spec fn n_plan(
    url: Seq<char>,
    source: Seq<char>,
    cache: Map<Seq<char>, Seq<char>>,
) -> NPlanView {
    if source.len() == 0 {
        NPlanView::Unchanged
    } else {
        match n_value(url) {
            Some(value) => if cache.contains_key(value) {
                NPlanView::Cached(cache[value])
            } else {
                NPlanView::Invoke(value)
            },
            None => NPlanView::Unchanged,
        }
    }
}

/// `url` with `result` as the value of each query parameter `n`. It is
/// `url` itself where `url` is no absolute URL, or where it or its
/// parameters are too large to be put together again.
pub open spec fn with_n(url: Seq<char>, result: Seq<char>) -> Seq<char> {
    match url_query_pairs(url) {
        Some(pairs) => {
            let replaced = with_value(pairs, "n"@, result);
            if text_fits(url) && pairs_fit(replaced) {
                match url_with_query(url, replaced) {
                    Some(text) => text,
                    None => url,
                }
            } else {
                url
            }
        },
        None => url,
    }
}

/// Decides what is to be done with `url`.
pub fn plan_n(url: &str, source: &str, cache: &ValueCache) -> (plan: NPlan)
    ensures
        plan@ == n_plan(url@, source@, cache@),
{
    if source.is_empty() {
        return NPlan::Unchanged;
    }
    match query_pairs_of(url) {
        Some(pairs) => match find_value(&pairs, "n") {
            Some(value) => match cache.get(value.as_str()) {
                Some(result) => NPlan::Cached(result),
                None => NPlan::Invoke(value),
            },
            None => NPlan::Unchanged,
        },
        None => NPlan::Unchanged,
    }
}

/// Puts `result` in the place of the value of each query parameter `n` of
/// `url`.
pub fn substitute_n(url: &str, result: &str) -> (r: String)
    ensures
        r@ == with_n(url@, result@),
{
    match query_pairs_of(url) {
        Some(pairs) => {
            let (replaced, _) = replace_value(&pairs, "n", result);
            if check_text_fits(url) && check_pairs_fit(&replaced) {
                match with_query_pairs(url, &replaced) {
                    Some(text) => text,
                    None => url.to_owned(),
                }
            } else {
                url.to_owned()
            }
        },
        None => url.to_owned(),
    }
}

/// Finishes the repair of an address whose `n` has the value `value`, for
/// which nothing is remembered, with the outcome of the n-transform
/// function: where the function returned a text, that text is remembered
/// for `value` and takes its place in the address; where it failed, the
/// address is returned as it is and nothing is remembered.
pub fn settle_n(
    url: &str,
    value: &str,
    outcome: Result<String, ScriptError>,
    cache: &mut ValueCache,
) -> (r: String)
    requires
        !old(cache)@.contains_key(value@),
    ensures
        match outcome {
            Ok(result) => r@ == with_n(url@, result@) && final(cache)@ == old(cache)@.insert(
                value@,
                result@,
            ),
            Err(_) => r@ == url@ && final(cache)@ == old(cache)@,
        },
{
    match outcome {
        Ok(result) => {
            cache.remember(value, result.as_str());
            substitute_n(url, result.as_str())
        },
        Err(_) => url.to_owned(),
    }
}

/// `out` is what the n-transformer may make of `url` with an n-transform
/// function of the source `source`, and `after` what it may leave of the
/// cache `before`: by the plan, `url` as it is; or its `n` replaced by what
/// is remembered, the cache left as it is; or, where the function is run,
/// its `n` replaced by some result, which the cache then holds, or `url` as
/// it is and the cache as it is where the function failed.
pub open spec fn n_transforms_to(
    url: Seq<char>,
    source: Seq<char>,
    before: Map<Seq<char>, Seq<char>>,
    after: Map<Seq<char>, Seq<char>>,
    out: Seq<char>,
) -> bool {
    match n_plan(url, source, before) {
        NPlanView::Unchanged => out == url && after == before,
        NPlanView::Cached(result) => out == with_n(url, result) && after == before,
        NPlanView::Invoke(value) => (out == url && after == before) || (exists|result: Seq<char>|
            out == #[trigger] with_n(url, result) && after == before.insert(value, result)),
    }
}

/// Repairs the throttling parameter of an address. The n-transform function
/// is given by its name and its source. With an empty source, or an address
/// without a query parameter `n`, the address is returned as it is. Else the
/// value of `n` is replaced: by the result that the cache holds for it,
/// without running anything; or by what the function returns for it, which
/// the cache then holds. Where the function fails, the address is returned
/// as it is and the cache stays as it was.
pub fn ncode(
    url: &str,
    n_transform_script_string: &(String, String),
    n_transform_cache: &mut ValueCache,
) -> (r: String)
    ensures
        n_transforms_to(
            url@,
            n_transform_script_string.1@,
            old(n_transform_cache)@,
            final(n_transform_cache)@,
            r@,
        ),
        forall|value: Seq<char>| #[trigger]
            old(n_transform_cache)@.contains_key(value) ==> final(n_transform_cache)@.contains_key(
                value,
            ) && final(n_transform_cache)@[value] == old(n_transform_cache)@[value],
{
    let name = n_transform_script_string.0.as_str();
    let source = n_transform_script_string.1.as_str();
    match plan_n(url, source, n_transform_cache) {
        NPlan::Unchanged => url.to_owned(),
        NPlan::Cached(result) => substitute_n(url, result.as_str()),
        NPlan::Invoke(value) => {
            let mut slot: Option<(String, boa_engine::Context<'_>)> = None;
            let outcome = execute(&mut slot, source, name, value.as_str());
            let ghost seen = outcome_view(outcome);
            let r = settle_n(url, value.as_str(), outcome, n_transform_cache);
            proof {
                if let Ok(result) = seen {
                    assert(r@ == with_n(url@, result));
                }
            }
            r
        },
    }
}

/// Once the function has run for a value of `n`, it is not run again for
/// it: where a first address had the function run and a result remembered,
/// a second address with the same `n` is served from the cache, with that
/// result and without a change to the cache.
pub proof fn lemma_second_call_is_served_from_cache(
    first: Seq<char>,
    second: Seq<char>,
    source: Seq<char>,
    before: Map<Seq<char>, Seq<char>>,
    between: Map<Seq<char>, Seq<char>>,
    after: Map<Seq<char>, Seq<char>>,
    first_out: Seq<char>,
    second_out: Seq<char>,
)
    requires
        n_value(first) is Some,
        n_value(second) == n_value(first),
        n_transforms_to(first, source, before, between, first_out),
        between != before,
        n_transforms_to(second, source, between, after, second_out),
    ensures
        n_plan(first, source, before) == NPlanView::Invoke(n_value(first)->0),
        n_plan(second, source, between) == NPlanView::Cached(between[n_value(first)->0]),
        second_out == with_n(second, between[n_value(first)->0]),
        after == between,
{
}

/// An address is never run through the function where the cache holds a
/// result for its `n`: whatever is remembered beside, the plan is the
/// substitution of that result.
pub proof fn lemma_cached_value_is_not_computed(
    url: Seq<char>,
    source: Seq<char>,
    cache: Map<Seq<char>, Seq<char>>,
)
    requires
        source.len() > 0,
        n_value(url) matches Some(value) && cache.contains_key(value),
    ensures
        n_plan(url, source, cache) == NPlanView::Cached(cache[n_value(url)->0]),
{
}

} // verus!
