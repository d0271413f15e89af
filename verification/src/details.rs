//! The details of a video, read from the two places of a player response
//! that hold them: what the response says of the video itself is put over
//! what its page says of it.

use crate::json::{is_age_restricted, age_restricted, Json};
use crate::number::{parse_i64, parse_signed};
use crate::text::append;
use vstd::prelude::*;
use vstd::string::*;
use vstd::utf8::*;

verus! {

/// A place in two JSON values that are read as one, the second put over the
/// first: where both are objects their members are put together, and
/// elsewhere the second, where there is one, takes the place of the first.
#[derive(Clone, Copy)]
pub struct Place<'a> {
    /// What the first value holds at this place.
    pub under: Option<&'a Json>,
    /// What the second value holds at this place.
    pub over: Option<&'a Json>,
}

/// What a `Place` holds.
pub struct PlaceView {
    pub under: Option<Json>,
    pub over: Option<Json>,
}

/// The value behind a reference that may be absent.
pub open spec fn value_of(j: Option<&Json>) -> Option<Json> {
    match j {
        Some(v) => Some(*v),
        None => None,
    }
}

impl<'a> View for Place<'a> {
    type V = PlaceView;

    open spec fn view(&self) -> PlaceView {
        PlaceView { under: value_of(self.under), over: value_of(self.over) }
    }
}

/// The member `key` of a value that may be absent.
pub open spec fn child(j: Option<Json>, key: Seq<char>) -> Option<Json> {
    match j {
        Some(v) => v.at(key),
        None => None,
    }
}

/// Both values are there, and both are objects.
pub open spec fn both_objects(p: PlaceView) -> bool {
    p.under matches Some(Json::Object(_)) && p.over matches Some(Json::Object(_))
}

/// The place of the member `key`: of both values where both are objects, of
/// the second alone where it takes the place of the first, of the first
/// alone where there is no second.
pub open spec fn member_place(p: PlaceView, key: Seq<char>) -> PlaceView {
    if p.over is None {
        PlaceView { under: child(p.under, key), over: None }
    } else if both_objects(p) {
        PlaceView { under: child(p.under, key), over: child(p.over, key) }
    } else {
        PlaceView { under: None, over: child(p.over, key) }
    }
}

/// Something is there: in the first value or in the second.
pub open spec fn is_present(p: PlaceView) -> bool {
    p.under is Some || p.over is Some
}

/// The value at a place, where it is the value of one of the two: the
/// second where there is one, else the first. `None` where nothing is
/// there, and where two objects are put together, which makes an object
/// that is neither.
pub open spec fn value_at(p: PlaceView) -> Option<Json> {
    if p.over is None {
        p.under
    } else if both_objects(p) {
        None
    } else {
        p.over
    }
}

/// The text at a place, or `default` where no text is there.
pub open spec fn text_or(p: PlaceView, default: Seq<char>) -> Seq<char> {
    match value_at(p) {
        Some(Json::Text(t)) => t@,
        _ => default,
    }
}

/// The flag at a place; not set where no flag is there.
pub open spec fn flag_at(p: PlaceView) -> bool {
    match value_at(p) {
        Some(Json::Bool(b)) => b,
        _ => false,
    }
}

/// The elements of the list at a place; none where no list is there.
pub open spec fn list_at(p: PlaceView) -> Seq<Json> {
    match value_at(p) {
        Some(Json::List(items)) => items@,
        _ => Seq::empty(),
    }
}

/// The text that a value is; empty where it is none.
pub open spec fn text_of_value(j: Json) -> Seq<char> {
    match j {
        Json::Text(t) => t@,
        _ => Seq::empty(),
    }
}

/// The integer of 64 bits that a value is, or that a text is written as; 0
/// where it is neither.
pub open spec fn number_of(j: Option<Json>) -> int {
    match j {
        Some(Json::Text(t)) => match parse_signed(encode_utf8(t@), i64::MAX as int) {
            Some(v) => v,
            None => 0,
        },
        Some(Json::Unsigned(u)) => if u <= i64::MAX {
            u as int
        } else {
            0
        },
        Some(Json::Negative(i)) => i as int,
        _ => 0,
    }
}

/// The text of a label at a place: the text of the first of its runs where
/// it has runs, else its simple text; empty where it has neither.
pub open spec fn label_at(p: PlaceView) -> Seq<char> {
    let runs = member_place(p, "runs"@);
    if is_present(runs) {
        if list_at(runs).len() > 0 {
            match list_at(runs)[0].at("text"@) {
                Some(Json::Text(t)) => t@,
                _ => Seq::empty(),
            }
        } else {
            Seq::empty()
        }
    } else {
        text_or(member_place(p, "simpleText"@), Seq::empty())
    }
}

/// The description at the place of the details: the short description
/// where there is one, else the text of the label `description`.
pub open spec fn description_at(p: PlaceView) -> Seq<char> {
    if is_present(member_place(p, "shortDescription"@)) {
        text_or(member_place(p, "shortDescription"@), Seq::empty())
    } else {
        label_at(member_place(p, "description"@))
    }
}

impl<'a> Place<'a> {
    /// The place of the member `key`.
    pub fn member(&self, key: &str) -> (r: Place<'a>)
        ensures
            r@ == member_place(self@, key@),
    {
        let under = match self.under {
            Some(v) => v.get(key),
            None => None,
        };
        match self.over {
            None => Place { under, over: None },
            Some(o) => {
                let both = match (self.under, o) {
                    (Some(Json::Object(_)), Json::Object(_)) => true,
                    _ => false,
                };
                if both {
                    Place { under, over: o.get(key) }
                } else {
                    Place { under: None, over: o.get(key) }
                }
            },
        }
    }

    /// Whether something is there.
    pub fn present(&self) -> (r: bool)
        ensures
            r == is_present(self@),
    {
        self.under.is_some() || self.over.is_some()
    }

    /// The value at the place, where it is the value of one of the two.
    pub fn value(&self) -> (r: Option<&'a Json>)
        ensures
            value_of(r) == value_at(self@),
    {
        match self.over {
            None => self.under,
            Some(o) => {
                let both = match (self.under, o) {
                    (Some(Json::Object(_)), Json::Object(_)) => true,
                    _ => false,
                };
                if both {
                    None
                } else {
                    Some(o)
                }
            },
        }
    }

    /// The text at the place, or `default`.
    pub fn text(&self, default: &str) -> (r: String)
        ensures
            r@ == text_or(self@, default@),
    {
        match self.value() {
            Some(Json::Text(t)) => t.clone(),
            _ => default.to_owned(),
        }
    }

    /// The flag at the place.
    pub fn flag(&self) -> (r: bool)
        ensures
            r == flag_at(self@),
    {
        match self.value() {
            Some(Json::Bool(b)) => *b,
            _ => false,
        }
    }

    /// The texts of the list at the place, an element that is no text
    /// counting as the empty one.
    pub fn texts(&self) -> (r: Vec<String>)
        ensures
            r.len() == list_at(self@).len(),
            forall|i: int|
                0 <= i < r.len() ==> (#[trigger] r[i])@ == text_of_value(list_at(self@)[i]),
    {
        let mut out: Vec<String> = Vec::new();
        match self.value() {
            Some(Json::List(items)) => {
                let mut i: usize = 0;
                while i < items.len()
                    invariant
                        i <= items.len(),
                        out.len() == i,
                        forall|k: int|
                            0 <= k < i ==> (#[trigger] out[k])@ == text_of_value(items@[k]),
                    decreases items.len() - i,
                {
                    let text = match &items[i] {
                        Json::Text(t) => t.clone(),
                        _ => String::new(),
                    };
                    out.push(text);
                    i += 1;
                }
                out
            },
            _ => out,
        }
    }

    /// The text of the label at the place.
    pub fn label(&self) -> (r: String)
        ensures
            r@ == label_at(self@),
    {
        proof {
            reveal_strlit("");
            assert(""@ =~= Seq::<char>::empty());
        }
        let runs = self.member("runs");
        if runs.present() {
            match runs.value() {
                Some(Json::List(items)) => {
                    if items.len() > 0 {
                        match items[0].get("text") {
                            Some(Json::Text(t)) => t.clone(),
                            _ => String::new(),
                        }
                    } else {
                        String::new()
                    }
                },
                _ => String::new(),
            }
        } else {
            self.member("simpleText").text("")
        }
    }
}

/// The integer that a value is, or that a text is written as.
pub fn read_number(j: Option<&Json>) -> (r: i64)
    ensures
        r == number_of(value_of(j)),
{
    match j {
        Some(Json::Text(t)) => match parse_i64(t.as_str().as_bytes()) {
            Some(v) => v,
            None => 0,
        },
        Some(Json::Unsigned(u)) => {
            if *u <= 0x7fff_ffff_ffff_ffff {
                *u as i64
            } else {
                0
            }
        },
        Some(Json::Negative(i)) => *i,
        _ => 0,
    }
}

/// How a video is embedded in a page.
#[derive(Clone, Debug, PartialEq, Eq)]
pub struct Embed {
    pub flash_secure_url: String,
    pub flash_url: String,
    pub iframe_url: String,
    pub height: i64,
    pub width: i64,
}

/// A still picture of a video.
#[derive(Clone, Debug, PartialEq, Eq)]
pub struct Thumbnail {
    pub width: i64,
    pub height: i64,
    pub url: String,
}

/// What a player response says of a video.
#[derive(Clone, Debug, PartialEq, Eq)]
pub struct VideoDetails {
    pub age_restricted: bool,
    pub video_url: String,
    pub embed: Embed,
    pub title: String,
    pub description: String,
    pub length_seconds: String,
    pub owner_profile_url: String,
    pub external_channel_id: String,
    pub is_family_safe: bool,
    pub available_countries: Vec<String>,
    pub is_unlisted: bool,
    pub has_ypc_metadata: bool,
    pub view_count: String,
    pub category: String,
    pub publish_date: String,
    pub owner_channel_name: String,
    pub upload_date: String,
    pub video_id: String,
    pub keywords: Vec<String>,
    pub channel_id: String,
    pub is_owner_viewing: bool,
    pub is_crawlable: bool,
    pub allow_ratings: bool,
    pub is_private: bool,
    pub is_unplugged_corpus: bool,
    pub is_live_content: bool,
    pub thumbnails: Vec<Thumbnail>,
}

/// The place of the details in a player response: the member
/// `videoDetails` over the member `playerMicroformatRenderer` of the member
/// `microformat`.
pub open spec fn details_place(player_response: Json) -> PlaceView {
    PlaceView {
        under: child(player_response.at("microformat"@), "playerMicroformatRenderer"@),
        over: player_response.at("videoDetails"@),
    }
}

/// `texts` are the texts of the list at `p`.
pub open spec fn are_texts_at(texts: Seq<String>, p: PlaceView) -> bool {
    &&& texts.len() == list_at(p).len()
    &&& forall|i: int| 0 <= i < texts.len() ==> (#[trigger] texts[i])@ == text_of_value(list_at(p)[i])
}

/// `t` is the picture that the value `j` describes.
pub open spec fn is_thumbnail_of(t: Thumbnail, j: Json) -> bool {
    &&& t.width == number_of(j.at("width"@))
    &&& t.height == number_of(j.at("height"@))
    &&& t.url@ == (match j.at("url"@) {
        Some(Json::Text(u)) => u@,
        _ => Seq::empty(),
    })
}

/// `e` is how the details at `p` say that the video is embedded.
pub open spec fn is_embed_of(e: Embed, p: PlaceView) -> bool {
    let at = member_place(p, "embed"@);
    &&& e.flash_secure_url@ == text_or(member_place(at, "flashSecureUrl"@), Seq::empty())
    &&& e.flash_url@ == text_or(member_place(at, "flashUrl"@), Seq::empty())
    &&& e.iframe_url@ == text_or(member_place(at, "iframeUrl"@), Seq::empty())
    &&& e.height == number_of(value_at(member_place(at, "height"@)))
    &&& e.width == number_of(value_at(member_place(at, "width"@)))
}

/// `d` holds what the player response says of the video with the id `id`,
/// and whether `media` tell of an age restriction. A text that is missing
/// is empty, but for the length, the number of views and the id, which are
/// `0`; a flag that is missing is not set; a list that is missing is empty.
pub open spec fn are_details_of(d: VideoDetails, player_response: Json, media: Json, id: Seq<char>) -> bool {
    let p = details_place(player_response);
    let pictures = list_at(member_place(member_place(p, "thumbnail"@), "thumbnails"@));
    &&& d.age_restricted == age_restricted(media)
    &&& d.video_url@ == "https://www.youtube.com/watch?v="@ + id
    &&& is_embed_of(d.embed, p)
    &&& d.title@ == text_or(member_place(p, "title"@), Seq::empty())
    &&& d.description@ == description_at(p)
    &&& d.length_seconds@ == text_or(member_place(p, "lengthSeconds"@), "0"@)
    &&& d.owner_profile_url@ == text_or(member_place(p, "ownerProfileUrl"@), Seq::empty())
    &&& d.external_channel_id@ == text_or(member_place(p, "externalChannelId"@), Seq::empty())
    &&& d.is_family_safe == flag_at(member_place(p, "isFamilySafe"@))
    &&& are_texts_at(d.available_countries@, member_place(p, "availableCountries"@))
    &&& d.is_unlisted == flag_at(member_place(p, "isUnlisted"@))
    &&& d.has_ypc_metadata == flag_at(member_place(p, "hasYpcMetadata"@))
    &&& d.view_count@ == text_or(member_place(p, "viewCount"@), "0"@)
    &&& d.category@ == text_or(member_place(p, "category"@), Seq::empty())
    &&& d.publish_date@ == text_or(member_place(p, "publishDate"@), Seq::empty())
    &&& d.owner_channel_name@ == text_or(member_place(p, "ownerChannelName"@), Seq::empty())
    &&& d.upload_date@ == text_or(member_place(p, "uploadDate"@), Seq::empty())
    &&& d.video_id@ == text_or(member_place(p, "videoId"@), "0"@)
    &&& are_texts_at(d.keywords@, member_place(p, "keywords"@))
    &&& d.channel_id@ == text_or(member_place(p, "channelId"@), Seq::empty())
    &&& d.is_owner_viewing == flag_at(member_place(p, "isOwnerViewing"@))
    &&& d.is_crawlable == flag_at(member_place(p, "isCrawlable"@))
    &&& d.allow_ratings == flag_at(member_place(p, "allowRatings"@))
    &&& d.is_private == flag_at(member_place(p, "isPrivate"@))
    &&& d.is_unplugged_corpus == flag_at(member_place(p, "isUnpluggedCorpus"@))
    &&& d.is_live_content == flag_at(member_place(p, "isLiveContent"@))
    &&& d.thumbnails@.len() == pictures.len()
    &&& forall|i: int|
        0 <= i < pictures.len() ==> is_thumbnail_of(#[trigger] d.thumbnails@[i], pictures[i])
}

/// The pictures that a list of values describes.
fn read_thumbnails(p: &Place) -> (r: Vec<Thumbnail>)
    ensures
        r@.len() == list_at(p@).len(),
        forall|i: int| 0 <= i < r@.len() ==> is_thumbnail_of(#[trigger] r@[i], list_at(p@)[i]),
{
    let mut out: Vec<Thumbnail> = Vec::new();
    match p.value() {
        Some(Json::List(items)) => {
            let mut i: usize = 0;
            while i < items.len()
                invariant
                    i <= items.len(),
                    out.len() == i,
                    forall|k: int| 0 <= k < i ==> is_thumbnail_of(#[trigger] out@[k], items@[k]),
                decreases items.len() - i,
            {
                let item = &items[i];
                let url = match item.get("url") {
                    Some(Json::Text(u)) => u.clone(),
                    _ => String::new(),
                };
                let picture = Thumbnail {
                    width: read_number(item.get("width")),
                    height: read_number(item.get("height")),
                    url,
                };
                out.push(picture);
                i += 1;
            }
            out
        },
        _ => out,
    }
}

/// Reads the details of the video with the id `id` from its player
/// response: each detail is what `videoDetails` says of it, or, where that
/// says nothing, what the page's `playerMicroformatRenderer` says.
pub fn clean_video_details(player_response: &Json, media: &Json, id: &str) -> (d: VideoDetails)
    ensures
        are_details_of(d, *player_response, *media, id@),
{
    let under = match player_response.get("microformat") {
        Some(microformat) => microformat.get("playerMicroformatRenderer"),
        None => None,
    };
    let p = Place { under, over: player_response.get("videoDetails") };
    assert(p@ == details_place(*player_response));
    let embed_at = p.member("embed");
    let embed = Embed {
        flash_secure_url: embed_at.member("flashSecureUrl").text(""),
        flash_url: embed_at.member("flashUrl").text(""),
        iframe_url: embed_at.member("iframeUrl").text(""),
        height: read_number(embed_at.member("height").value()),
        width: read_number(embed_at.member("width").value()),
    };
    let description = if p.member("shortDescription").present() {
        p.member("shortDescription").text("")
    } else {
        p.member("description").label()
    };
    let mut video_url = String::new();
    append(&mut video_url, "https://www.youtube.com/watch?v=");
    append(&mut video_url, id);
    proof {
        reveal_strlit("");
        assert(""@ =~= Seq::<char>::empty());
        assert(video_url@ =~= "https://www.youtube.com/watch?v="@ + id@);
    }
    VideoDetails {
        age_restricted: is_age_restricted(media),
        video_url,
        embed,
        title: p.member("title").text(""),
        description,
        length_seconds: p.member("lengthSeconds").text("0"),
        owner_profile_url: p.member("ownerProfileUrl").text(""),
        external_channel_id: p.member("externalChannelId").text(""),
        is_family_safe: p.member("isFamilySafe").flag(),
        available_countries: p.member("availableCountries").texts(),
        is_unlisted: p.member("isUnlisted").flag(),
        has_ypc_metadata: p.member("hasYpcMetadata").flag(),
        view_count: p.member("viewCount").text("0"),
        category: p.member("category").text(""),
        publish_date: p.member("publishDate").text(""),
        owner_channel_name: p.member("ownerChannelName").text(""),
        upload_date: p.member("uploadDate").text(""),
        video_id: p.member("videoId").text("0"),
        keywords: p.member("keywords").texts(),
        channel_id: p.member("channelId").text(""),
        is_owner_viewing: p.member("isOwnerViewing").flag(),
        is_crawlable: p.member("isCrawlable").flag(),
        allow_ratings: p.member("allowRatings").flag(),
        is_private: p.member("isPrivate").flag(),
        is_unplugged_corpus: p.member("isUnpluggedCorpus").flag(),
        is_live_content: p.member("isLiveContent").flag(),
        thumbnails: read_thumbnails(&p.member("thumbnail").member("thumbnails")),
    }
}

} // verus!
