use rusty_ytdl::{
    clean_video_details, Embed, Place, Thumbnail, get_cver, get_text, is_age_restricted, is_not_yet_broadcasted, is_play_error, is_private_video,
    is_rental, is_verified, Json,
};

fn text(s: &str) -> Json {
    Json::Text(s.to_string())
}

fn object(members: Vec<(&str, Json)>) -> Json {
    Json::Object(members.into_iter().map(|(k, v)| (k.to_string(), v)).collect())
}

fn response(status: Json, screen: Option<Json>) -> Json {
    let mut members = vec![("status", status)];
    if let Some(screen) = screen {
        members.push(("errorScreen", screen));
    }
    object(vec![("videoDetails", Json::Null), ("playabilityStatus", object(members))])
}

#[test]
fn a_member_is_found_by_its_key() {
    let value = object(vec![("a", Json::Unsigned(1)), ("b", text("x")), ("a", Json::Unsigned(2))]);
    assert!(matches!(value.get("a"), Some(Json::Unsigned(1))));
    assert!(matches!(value.get("b"), Some(Json::Text(t)) if t == "x"));
    assert!(value.get("c").is_none());
    assert!(value.get("").is_none());
    assert!(Json::Null.get("a").is_none());
    assert!(Json::List(vec![]).get("a").is_none());
    assert_eq!(text("x").as_str(), Some("x"));
    assert_eq!(Json::Unsigned(1).as_str(), None);
    assert_eq!(Json::Unsigned(7).as_u64(), Some(7));
    assert_eq!(Json::Negative(-7).as_u64(), None);
    assert_eq!(text("7").as_u64(), None);
    assert_eq!(Json::List(vec![Json::Null]).as_array().map(|a| a.len()), Some(1));
    assert!(Json::Null.as_array().is_none());
}

#[test]
fn a_video_is_for_rent_where_it_makes_an_offer() {
    let offer = object(vec![("playerLegacyDesktopYpcOfferRenderer", object(vec![]))]);
    assert!(is_rental(&response(text("UNPLAYABLE"), Some(offer))));
    let offer = object(vec![("playerLegacyDesktopYpcOfferRenderer", Json::Null)]);
    assert!(is_rental(&response(text("UNPLAYABLE"), Some(offer))));
    assert!(!is_rental(&response(text("UNPLAYABLE"), Some(object(vec![])))));
    assert!(!is_rental(&response(text("UNPLAYABLE"), None)));
    let offer = object(vec![("playerLegacyDesktopYpcOfferRenderer", object(vec![]))]);
    assert!(!is_rental(&response(text("OK"), Some(offer))));
    assert!(!is_rental(&object(vec![])));
    assert!(!is_rental(&Json::Null));
}

#[test]
fn the_status_tells_of_a_broadcast_and_of_a_private_video() {
    assert!(is_not_yet_broadcasted(&response(text("LIVE_STREAM_OFFLINE"), None)));
    assert!(!is_not_yet_broadcasted(&response(text("OK"), None)));
    assert!(!is_not_yet_broadcasted(&response(Json::Null, None)));
    assert!(!is_not_yet_broadcasted(&object(vec![])));
    assert!(is_private_video(&response(text("LOGIN_REQUIRED"), None)));
    assert!(!is_private_video(&response(text("login_required"), None)));
    assert!(!is_private_video(&response(text(""), None)));
    assert!(!is_private_video(&Json::Null));
}

#[test]
fn a_play_error_is_a_status_of_the_list() {
    let statuses = vec!["ERROR".to_string(), "LOGIN_REQUIRED".to_string()];
    assert!(is_play_error(&response(text("ERROR"), None), &statuses));
    assert!(is_play_error(&response(text("LOGIN_REQUIRED"), None), &statuses));
    assert!(!is_play_error(&response(text("OK"), None), &statuses));
    assert!(!is_play_error(&response(text("ERROR"), None), &vec![]));
    assert!(!is_play_error(&response(Json::Unsigned(1), None), &statuses));
    assert!(!is_play_error(&object(vec![]), &statuses));
    assert!(is_play_error(&response(text(""), None), &vec![String::new()]));
    assert!(!is_play_error(&object(vec![]), &vec![String::new()]));
}

#[test]
fn the_text_of_a_label() {
    let runs = object(vec![
        ("runs", Json::List(vec![object(vec![("text", text("first"))]), object(vec![("text", text("second"))])])),
        ("simpleText", text("simple")),
    ]);
    assert!(matches!(get_text(&runs), Some(Json::Text(t)) if t == "first"));
    let simple = object(vec![("simpleText", text("simple"))]);
    assert!(matches!(get_text(&simple), Some(Json::Text(t)) if t == "simple"));
    let empty_runs = object(vec![("runs", Json::List(vec![])), ("simpleText", text("simple"))]);
    assert!(get_text(&empty_runs).is_none());
    assert!(get_text(&object(vec![])).is_none());
    assert!(get_text(&Json::Null).is_none());
}

#[test]
fn a_badge_may_say_verified() {
    let badge = |tooltip: &str| object(vec![("metadataBadgeRenderer", object(vec![("tooltip", text(tooltip))]))]);
    assert!(is_verified(&Json::List(vec![badge("Official"), badge("Verified")])));
    assert!(!is_verified(&Json::List(vec![badge("Official"), badge("verified")])));
    assert!(!is_verified(&Json::List(vec![])));
    assert!(!is_verified(&badge("Verified")));
    assert!(!is_verified(&Json::Null));
}

#[test]
fn media_may_tell_of_an_age_restriction() {
    let media = |value: Json| object(vec![("a", Json::Unsigned(1)), ("b", value)]);
    assert!(is_age_restricted(&media(text("https://support.google.com/youtube/?p=age_restrictions"))));
    assert!(is_age_restricted(&media(text("see youtube.com/t/community_guidelines now"))));
    assert!(!is_age_restricted(&media(text("https://support.google.com/youtube/"))));
    assert!(!is_age_restricted(&media(Json::Null)));
    assert!(!is_age_restricted(&Json::Null));
    assert!(!is_age_restricted(&text("youtube.com/t/community_guidelines")));
}

#[test]
fn the_client_version_is_a_tracking_parameter() {
    let param = |key: &str, value: &str| object(vec![("key", text(key)), ("value", text(value))]);
    let service = |name: &str, params: Vec<Json>| {
        object(vec![("service", text(name)), ("params", Json::List(params))])
    };
    let info = |services: Vec<Json>| {
        object(vec![(
            "responseContext",
            object(vec![("serviceTrackingParams", Json::List(services))]),
        )])
    };
    let full = info(vec![
        service("GFEEDBACK", vec![param("cver", "wrong")]),
        Json::Null,
        service("CSI", vec![param("c", "WEB"), param("cver", "2.20230101"), param("cver", "later")]),
        service("CSI", vec![param("cver", "other")]),
    ]);
    assert_eq!(get_cver(&full), Some("2.20230101"));
    assert_eq!(get_cver(&info(vec![service("CSI", vec![param("c", "WEB")])])), None);
    assert_eq!(get_cver(&info(vec![service("ECATCHER", vec![param("cver", "1")])])), None);
    assert_eq!(get_cver(&info(vec![])), None);
    assert_eq!(get_cver(&object(vec![])), None);
    assert_eq!(get_cver(&Json::Null), None);
    let no_text = info(vec![service(
        "CSI",
        vec![object(vec![("key", text("cver")), ("value", Json::Unsigned(2))])],
    )]);
    assert_eq!(get_cver(&no_text), None);
}

fn number(n: u64) -> Json {
    Json::Unsigned(n)
}

fn picture(width: Json, height: Json, url: &str) -> Json {
    object(vec![("width", width), ("height", height), ("url", text(url))])
}

fn player_response() -> Json {
    object(vec![
        (
            "microformat",
            object(vec![(
                "playerMicroformatRenderer",
                object(vec![
                    ("title", object(vec![("simpleText", text("page title"))])),
                    ("description", object(vec![("simpleText", text("page description"))])),
                    ("category", text("Music")),
                    ("publishDate", text("2020-01-02")),
                    ("isFamilySafe", Json::Bool(true)),
                    ("isUnlisted", Json::Bool(true)),
                    ("availableCountries", Json::List(vec![text("DE"), number(1), text("FR")])),
                    (
                        "embed",
                        object(vec![
                            ("iframeUrl", text("https://www.youtube.com/embed/dQw4w9WgXcQ")),
                            ("flashUrl", number(5)),
                            ("width", number(1280)),
                            ("height", text("-720")),
                        ]),
                    ),
                    (
                        "thumbnail",
                        object(vec![(
                            "thumbnails",
                            Json::List(vec![picture(number(1), number(1), "page")]),
                        )]),
                    ),
                    ("lengthSeconds", text("100")),
                ]),
            )]),
        ),
        (
            "videoDetails",
            object(vec![
                ("videoId", text("dQw4w9WgXcQ")),
                ("title", text("Title")),
                ("lengthSeconds", text("212")),
                ("keywords", Json::List(vec![text("a"), text("b")])),
                ("isUnlisted", Json::Bool(false)),
                ("isCrawlable", Json::Bool(true)),
                ("viewCount", number(7)),
                (
                    "thumbnail",
                    object(vec![(
                        "thumbnails",
                        Json::List(vec![
                            picture(number(120), text("90"), "small"),
                            picture(Json::Null, Json::Decimal("1.5".to_string()), "large"),
                        ]),
                    )]),
                ),
            ]),
        ),
    ])
}

#[test]
fn details_are_read_from_both_places() {
    let restricted = object(vec![("a", text("youtube.com/t/community_guidelines"))]);
    let d = clean_video_details(&player_response(), &restricted, "dQw4w9WgXcQ");
    assert!(d.age_restricted);
    assert_eq!(d.video_url, "https://www.youtube.com/watch?v=dQw4w9WgXcQ");
    assert_eq!(d.title, "Title");
    assert_eq!(d.description, "page description");
    assert_eq!(d.length_seconds, "212");
    assert_eq!(d.category, "Music");
    assert_eq!(d.publish_date, "2020-01-02");
    assert_eq!(d.video_id, "dQw4w9WgXcQ");
    assert_eq!(d.view_count, "0");
    assert_eq!(d.upload_date, "");
    assert!(d.is_family_safe);
    assert!(!d.is_unlisted);
    assert!(d.is_crawlable);
    assert!(!d.is_private);
    assert_eq!(d.keywords, vec!["a".to_string(), "b".to_string()]);
    assert_eq!(d.available_countries, vec!["DE".to_string(), String::new(), "FR".to_string()]);
    assert_eq!(
        d.embed,
        Embed {
            flash_secure_url: String::new(),
            flash_url: String::new(),
            iframe_url: "https://www.youtube.com/embed/dQw4w9WgXcQ".to_string(),
            height: -720,
            width: 1280,
        }
    );
    assert_eq!(
        d.thumbnails,
        vec![
            Thumbnail { width: 120, height: 90, url: "small".to_string() },
            Thumbnail { width: 0, height: 0, url: "large".to_string() },
        ]
    );
}

#[test]
fn details_that_are_missing_have_their_defaults() {
    for response in [Json::Null, object(vec![]), object(vec![("videoDetails", text("x"))])] {
        let d = clean_video_details(&response, &Json::Null, "");
        assert!(!d.age_restricted);
        assert_eq!(d.video_url, "https://www.youtube.com/watch?v=");
        assert_eq!(d.title, "");
        assert_eq!(d.description, "");
        assert_eq!(d.length_seconds, "0");
        assert_eq!(d.view_count, "0");
        assert_eq!(d.video_id, "0");
        assert_eq!(d.embed.width, 0);
        assert!(d.keywords.is_empty());
        assert!(d.thumbnails.is_empty());
        assert!(!d.is_live_content);
    }
}

#[test]
fn the_second_value_takes_the_place_of_the_first_but_for_objects() {
    let under = object(vec![
        ("a", text("under")),
        ("b", text("under")),
        ("o", object(vec![("x", text("under")), ("y", text("under"))])),
        ("p", object(vec![("x", text("under"))])),
        ("q", text("under")),
    ]);
    let over = object(vec![
        ("b", text("over")),
        ("c", text("over")),
        ("o", object(vec![("y", text("over")), ("z", text("over"))])),
        ("p", text("over")),
        ("q", object(vec![("x", text("over"))])),
    ]);
    let place = Place { under: Some(&under), over: Some(&over) };
    assert_eq!(place.member("a").text("-"), "under");
    assert_eq!(place.member("b").text("-"), "over");
    assert_eq!(place.member("c").text("-"), "over");
    assert_eq!(place.member("d").text("-"), "-");
    assert!(!place.member("d").present());
    assert!(place.member("o").present());
    assert!(place.member("o").value().is_none());
    assert_eq!(place.member("o").text("-"), "-");
    assert_eq!(place.member("o").member("x").text("-"), "under");
    assert_eq!(place.member("o").member("y").text("-"), "over");
    assert_eq!(place.member("o").member("z").text("-"), "over");
    assert_eq!(place.member("p").text("-"), "over");
    assert_eq!(place.member("p").member("x").text("-"), "-");
    assert_eq!(place.member("q").member("x").text("-"), "over");
    assert_eq!(place.member("a").member("x").text("-"), "-");
    let alone = Place { under: Some(&under), over: None };
    assert_eq!(alone.member("o").member("x").text("-"), "under");
    let replaced = Place { under: Some(&under), over: Some(&Json::Null) };
    assert_eq!(replaced.member("a").text("-"), "-");
}

#[test]
fn a_description_is_the_short_one_or_the_label() {
    let details = |members: Vec<(&str, Json)>| object(vec![("videoDetails", object(members))]);
    let d = |r: Json| clean_video_details(&r, &Json::Null, "x").description;
    assert_eq!(d(details(vec![("shortDescription", text("short")), ("description", object(vec![("simpleText", text("long"))]))])), "short");
    assert_eq!(d(details(vec![("shortDescription", number(1)), ("description", object(vec![("simpleText", text("long"))]))])), "");
    assert_eq!(d(details(vec![("description", object(vec![("simpleText", text("long"))]))])), "long");
    let runs = Json::List(vec![object(vec![("text", text("first"))]), object(vec![("text", text("second"))])]);
    assert_eq!(d(details(vec![("description", object(vec![("runs", runs), ("simpleText", text("long"))]))])), "first");
    assert_eq!(d(details(vec![("description", object(vec![("runs", Json::List(vec![])), ("simpleText", text("long"))]))])), "");
    assert_eq!(d(details(vec![("description", object(vec![("runs", text("no list"))]))])), "");
    assert_eq!(d(details(vec![("description", text("plain"))])), "");
}

#[test]
fn numbers_are_read_from_integers_and_from_texts() {
    let width = |value: Json| {
        let r = object(vec![("videoDetails", object(vec![("embed", object(vec![("width", value)]))]))]);
        clean_video_details(&r, &Json::Null, "x").embed.width
    };
    assert_eq!(width(number(5)), 5);
    assert_eq!(width(Json::Negative(-5)), -5);
    assert_eq!(width(text("+5")), 5);
    assert_eq!(width(text("-9223372036854775808")), i64::MIN);
    assert_eq!(width(text("9223372036854775807")), i64::MAX);
    assert_eq!(width(text("9223372036854775808")), 0);
    assert_eq!(width(text("-9223372036854775809")), 0);
    assert_eq!(width(text("5px")), 0);
    assert_eq!(width(text("")), 0);
    assert_eq!(width(text("-")), 0);
    assert_eq!(width(number(u64::MAX)), 0);
    assert_eq!(width(Json::Decimal("5.0".to_string())), 0);
    assert_eq!(width(Json::Bool(true)), 0);
}
