//! JSON values as the metadata of a video holds them, and the questions
//! that are asked of them.

use crate::text::{contains_bytes, contains_str, same_text};
use vstd::prelude::*;
use vstd::string::*;
use vstd::utf8::*;

verus! {

/// A JSON value. A number that is no integer of 64 bits is held as it is
/// written.
#[derive(Debug)]
pub enum Json {
    Null,
    Bool(bool),
    Unsigned(u64),
    Negative(i64),
    Decimal(String),
    Text(String),
    List(Vec<Json>),
    Object(Vec<(String, Json)>),
}

/// The value of the first member named `key`.
pub open spec fn member(members: Seq<(String, Json)>, key: Seq<char>) -> Option<Json>
    decreases members.len(),
{
    if members.len() == 0 {
        None
    } else if members[0].0@ == key {
        Some(members[0].1)
    } else {
        member(members.drop_first(), key)
    }
}

impl Json {
    /// The member `key` of an object. `None` for a value that is no object
    /// or an object without that member.
    pub open spec fn at(self, key: Seq<char>) -> Option<Json> {
        match self {
            Json::Object(members) => member(members@, key),
            _ => None,
        }
    }

    /// The characters of a text. `None` for a value that is no text.
    pub open spec fn text(self) -> Option<Seq<char>> {
        match self {
            Json::Text(t) => Some(t@),
            _ => None,
        }
    }

    /// The elements of a list. `None` for a value that is no list.
    pub open spec fn elements(self) -> Option<Seq<Json>> {
        match self {
            Json::List(items) => Some(items@),
            _ => None,
        }
    }

    /// The number that an unsigned integer is. `None` for any other value.
    pub open spec fn unsigned(self) -> Option<u64> {
        match self {
            Json::Unsigned(n) => Some(n),
            _ => None,
        }
    }

    /// The member `key` of an object.
    pub fn get(&self, key: &str) -> (r: Option<&Json>)
        ensures
            match r {
                Some(value) => self.at(key@) == Some(*value),
                None => self.at(key@) is None,
            },
    {
        match self {
            Json::Object(members) => {
                let mut i: usize = 0;
                assert(members@.subrange(0, members@.len() as int) =~= members@);
                while i < members.len()
                    invariant
                        i <= members.len(),
                        *self == Json::Object(*members),
                        member(members@.subrange(i as int, members@.len() as int), key@)
                            == member(members@, key@),
                    decreases members.len() - i,
                {
                    let ghost rest = members@.subrange(i as int, members@.len() as int);
                    assert(rest[0] == members@[i as int]);
                    assert(rest.drop_first() =~= members@.subrange(
                        i + 1,
                        members@.len() as int,
                    ));
                    if same_text(members[i].0.as_str(), key) {
                        return Some(&members[i].1);
                    }
                    i += 1;
                }
                None
            },
            _ => None,
        }
    }

    /// The text that this value is.
    pub fn as_str(&self) -> (r: Option<&str>)
        ensures
            match r {
                Some(t) => self.text() == Some(t@),
                None => self.text() is None,
            },
    {
        match self {
            Json::Text(t) => Some(t.as_str()),
            _ => None,
        }
    }

    /// The unsigned integer that this value is.
    pub fn as_u64(&self) -> (r: Option<u64>)
        ensures
            r == self.unsigned(),
    {
        match self {
            Json::Unsigned(n) => Some(*n),
            _ => None,
        }
    }

    /// The elements of the list that this value is.
    pub fn as_array(&self) -> (r: Option<&Vec<Json>>)
        ensures
            match r {
                Some(items) => self.elements() == Some(items@),
                None => self.elements() is None,
            },
    {
        match self {
            Json::List(items) => Some(items),
            _ => None,
        }
    }
}

/// The member `second` of the member `first` of `value`.
pub open spec fn at_path(value: Json, first: Seq<char>, second: Seq<char>) -> Option<Json> {
    match value.at(first) {
        Some(inner) => inner.at(second),
        None => None,
    }
}

/// The status under which a player response says whether the video can be
/// played. `None` where it says nothing, or nothing that is text.
pub open spec fn status_text(player_response: Json) -> Option<Seq<char>> {
    match at_path(player_response, "playabilityStatus"@, "status"@) {
        Some(status) => status.text(),
        None => None,
    }
}

/// The status of a player response; the empty text where it has none.
pub open spec fn playability_status(player_response: Json) -> Seq<char> {
    match status_text(player_response) {
        Some(t) => t,
        None => Seq::empty(),
    }
}

/// The characters of a text that may be absent.
pub open spec fn str_view(text: Option<&str>) -> Option<Seq<char>> {
    match text {
        Some(t) => Some(t@),
        None => None,
    }
}

/// The status of a player response.
fn status_of(player_response: &Json) -> (r: Option<&str>)
    ensures
        str_view(r) == status_text(*player_response),
{
    match player_response.get("playabilityStatus") {
        Some(playability) => match playability.get("status") {
            Some(status) => status.as_str(),
            None => None,
        },
        None => None,
    }
}

/// Whether the status of a player response is `status`, which is not
/// empty.
fn has_status(player_response: &Json, status: &str) -> (r: bool)
    requires
        status@.len() > 0,
    ensures
        r == (playability_status(*player_response) == status@),
{
    match status_of(player_response) {
        Some(found) => same_text(found, status),
        None => false,
    }
}

/// Whether the video is for rent: it cannot be played, and the error screen
/// makes an offer.
pub open spec fn rental(player_response: Json) -> bool {
    playability_status(player_response) == "UNPLAYABLE"@ && (match at_path(
        player_response,
        "playabilityStatus"@,
        "errorScreen"@,
    ) {
        Some(screen) => screen.at("playerLegacyDesktopYpcOfferRenderer"@) is Some,
        None => false,
    })
}

/// Whether the video is for rent.
pub fn is_rental(player_response: &Json) -> (r: bool)
    ensures
        r == rental(*player_response),
{
    proof {
        reveal_strlit("UNPLAYABLE");
    }
    if !has_status(player_response, "UNPLAYABLE") {
        return false;
    }
    match player_response.get("playabilityStatus") {
        Some(playability) => match playability.get("errorScreen") {
            Some(screen) => screen.get("playerLegacyDesktopYpcOfferRenderer").is_some(),
            None => false,
        },
        None => false,
    }
}

/// Whether the video is a live stream that has not begun.
pub fn is_not_yet_broadcasted(player_response: &Json) -> (r: bool)
    ensures
        r == (playability_status(*player_response) == "LIVE_STREAM_OFFLINE"@),
{
    proof {
        reveal_strlit("LIVE_STREAM_OFFLINE");
    }
    has_status(player_response, "LIVE_STREAM_OFFLINE")
}

/// Whether the video is private: it asks for a login.
pub fn is_private_video(player_response: &Json) -> (r: bool)
    ensures
        r == (playability_status(*player_response) == "LOGIN_REQUIRED"@),
{
    proof {
        reveal_strlit("LOGIN_REQUIRED");
    }
    has_status(player_response, "LOGIN_REQUIRED")
}

/// Some text of `statuses` is `status`.
pub open spec fn is_among(statuses: Seq<String>, status: Seq<char>) -> bool {
    exists|i: int| 0 <= i < statuses.len() && (#[trigger] statuses[i])@ == status
}

/// The status of the player response is text, and one of `statuses`.
pub open spec fn has_status_among(player_response: Json, statuses: Seq<String>) -> bool {
    match status_text(player_response) {
        Some(t) => is_among(statuses, t),
        None => false,
    }
}

/// Whether the status of the player response is one of `statuses`. A
/// response without a status that is text has none of them.
pub fn is_play_error(player_response: &Json, statuses: &Vec<String>) -> (r: bool)
    ensures
        r == has_status_among(*player_response, statuses@),
{
    match status_of(player_response) {
        Some(status) => {
            let mut i: usize = 0;
            while i < statuses.len()
                invariant
                    i <= statuses.len(),
                    status_text(*player_response) == Some(status@),
                    forall|k: int| 0 <= k < i ==> (#[trigger] statuses@[k])@ != status@,
                decreases statuses.len() - i,
            {
                if same_text(statuses[i].as_str(), status) {
                    assert(statuses@[i as int]@ == status@);
                    return true;
                }
                i += 1;
            }
            false
        },
        None => false,
    }
}

/// The text of a label: the text of its first run where it has runs, else
/// its simple text. `None` where it has neither.
pub open spec fn label_text(label: Json) -> Option<Json> {
    match label.at("runs"@) {
        Some(runs) => match runs.elements() {
            Some(items) => if items.len() > 0 {
                items[0].at("text"@)
            } else {
                None
            },
            None => None,
        },
        None => label.at("simpleText"@),
    }
}

/// The text of a label.
pub fn get_text(label: &Json) -> (r: Option<&Json>)
    ensures
        match r {
            Some(value) => label_text(*label) == Some(*value),
            None => label_text(*label) is None,
        },
{
    match label.get("runs") {
        Some(runs) => match runs.as_array() {
            Some(items) => {
                if items.len() > 0 {
                    items[0].get("text")
                } else {
                    None
                }
            },
            None => None,
        },
        None => label.get("simpleText"),
    }
}

/// Whether a badge says that its owner is verified.
pub open spec fn says_verified(badge: Json) -> bool {
    match at_path(badge, "metadataBadgeRenderer"@, "tooltip"@) {
        Some(tooltip) => tooltip.text() == Some("Verified"@),
        None => false,
    }
}

/// Some badge of a list says that its owner is verified.
pub open spec fn any_says_verified(items: Seq<Json>) -> bool {
    exists|i: int| 0 <= i < items.len() && says_verified(#[trigger] items[i])
}

/// Some badge of `badges` says that its owner is verified.
pub open spec fn verified(badges: Json) -> bool {
    match badges.elements() {
        Some(items) => any_says_verified(items),
        None => false,
    }
}

/// Whether one of the badges says that its owner is verified.
pub fn is_verified(badges: &Json) -> (r: bool)
    ensures
        r == verified(*badges),
{
    match badges.as_array() {
        Some(items) => {
            let mut i: usize = 0;
            while i < items.len()
                invariant
                    i <= items.len(),
                    badges.elements() == Some(items@),
                    forall|k: int| 0 <= k < i ==> !says_verified(#[trigger] items@[k]),
                decreases items.len() - i,
            {
                let says = match items[i].get("metadataBadgeRenderer") {
                    Some(renderer) => match renderer.get("tooltip") {
                        Some(tooltip) => match tooltip.as_str() {
                            Some(t) => same_text(t, "Verified"),
                            None => false,
                        },
                        None => false,
                    },
                    None => false,
                };
                if says {
                    assert(says_verified(items@[i as int]));
                    assert(any_says_verified(items@));
                    return true;
                }
                i += 1;
            }
            false
        },
        None => false,
    }
}

/// The two addresses that tell of an age restriction.
pub open spec fn tells_of_age_restriction(text: Seq<u8>) -> bool {
    contains_bytes(text, "support.google.com/youtube/?p=age_restrictions".spec_bytes())
        || contains_bytes(text, "youtube.com/t/community_guidelines".spec_bytes())
}

/// `value` is a text that tells of an age restriction.
pub open spec fn is_restricting(value: Json) -> bool {
    match value.text() {
        Some(t) => tells_of_age_restriction(encode_utf8(t)),
        None => false,
    }
}

/// Some member of a list is a text that tells of an age restriction.
pub open spec fn any_restricting(members: Seq<(String, Json)>) -> bool {
    exists|i: int| 0 <= i < members.len() && is_restricting((#[trigger] members[i]).1)
}

/// Some member of `media` is a text that tells of an age restriction.
pub open spec fn age_restricted(media: Json) -> bool {
    match media {
        Json::Object(members) => any_restricting(members@),
        _ => false,
    }
}

/// Whether the media of a video tell of an age restriction.
pub fn is_age_restricted(media: &Json) -> (r: bool)
    ensures
        r == age_restricted(*media),
{
    match media {
        Json::Object(members) => {
            let mut i: usize = 0;
            while i < members.len()
                invariant
                    i <= members.len(),
                    *media == Json::Object(*members),
                    forall|k: int| 0 <= k < i ==> !is_restricting((#[trigger] members@[k]).1),
                decreases members.len() - i,
            {
                let tells = match members[i].1.as_str() {
                    Some(t) => contains_str(t, "support.google.com/youtube/?p=age_restrictions")
                        || contains_str(t, "youtube.com/t/community_guidelines"),
                    None => false,
                };
                if tells {
                    assert(is_restricting(members@[i as int].1));
                    assert(any_restricting(members@));
                    return true;
                }
                i += 1;
            }
            false
        },
        _ => false,
    }
}

/// The text of the member `key` of `value`.
pub open spec fn text_at(value: Json, key: Seq<char>) -> Option<Seq<char>> {
    match value.at(key) {
        Some(inner) => inner.text(),
        None => None,
    }
}

/// The place of the first element of `items` whose member `key` is the text
/// `wanted`; the length of `items` where there is none.
pub open spec fn first_with(items: Seq<Json>, key: Seq<char>, wanted: Seq<char>) -> int
    decreases items.len(),
{
    if items.len() == 0 {
        0
    } else if text_at(items[0], key) == Some(wanted) {
        0
    } else {
        1 + first_with(items.drop_first(), key, wanted)
    }
}

/// The first element of the list `list` whose member `key` is the text
/// `wanted`. `None` for a value that is no list or a list without such an
/// element.
pub open spec fn element_with(list: Json, key: Seq<char>, wanted: Seq<char>) -> Option<Json> {
    match list.elements() {
        Some(items) => if first_with(items, key, wanted) < items.len() {
            Some(items[first_with(items, key, wanted)])
        } else {
            None
        },
        None => None,
    }
}

/// The first element of a list whose member `key` is the text `wanted`.
pub fn find_element<'a>(list: &'a Json, key: &str, wanted: &str) -> (r: Option<&'a Json>)
    ensures
        match r {
            Some(found) => element_with(*list, key@, wanted@) == Some(*found),
            None => element_with(*list, key@, wanted@) is None,
        },
{
    match list.as_array() {
        Some(items) => {
            let mut i: usize = 0;
            assert(items@.subrange(0, items@.len() as int) =~= items@);
            while i < items.len()
                invariant
                    i <= items.len(),
                    list.elements() == Some(items@),
                    first_with(items@, key@, wanted@) == i + first_with(
                        items@.subrange(i as int, items@.len() as int),
                        key@,
                        wanted@,
                    ),
                decreases items.len() - i,
            {
                let ghost rest = items@.subrange(i as int, items@.len() as int);
                assert(rest[0] == items@[i as int]);
                assert(rest.drop_first() =~= items@.subrange(i + 1, items@.len() as int));
                let matches = match items[i].get(key) {
                    Some(value) => match value.as_str() {
                        Some(t) => same_text(t, wanted),
                        None => false,
                    },
                    None => false,
                };
                if matches {
                    return Some(&items[i]);
                }
                i += 1;
            }
            None
        },
        None => None,
    }
}

/// The version of the client that a response was made for: the value of the
/// parameter `cver` of the service `CSI` among the tracking parameters of
/// the response context.
pub open spec fn client_version(info: Json) -> Option<Seq<char>> {
    match at_path(info, "responseContext"@, "serviceTrackingParams"@) {
        Some(services) => match element_with(services, "service"@, "CSI"@) {
            Some(csi) => match csi.at("params"@) {
                Some(params) => match element_with(params, "key"@, "cver"@) {
                    Some(cver) => text_at(cver, "value"@),
                    None => None,
                },
                None => None,
            },
            None => None,
        },
        None => None,
    }
}

/// The version of the client that a response was made for. `None` where the
/// response does not name it.
pub fn get_cver(info: &Json) -> (r: Option<&str>)
    ensures
        str_view(r) == client_version(*info),
{
    let services = match info.get("responseContext") {
        Some(context) => match context.get("serviceTrackingParams") {
            Some(services) => services,
            None => {
                return None;
            },
        },
        None => {
            return None;
        },
    };
    let csi = match find_element(services, "service", "CSI") {
        Some(csi) => csi,
        None => {
            return None;
        },
    };
    let params = match csi.get("params") {
        Some(params) => params,
        None => {
            return None;
        },
    };
    match find_element(params, "key", "cver") {
        Some(cver) => match cver.get("value") {
            Some(value) => value.as_str(),
            None => None,
        },
        None => None,
    }
}

} // verus!
