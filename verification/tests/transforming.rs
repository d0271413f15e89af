use rusty_ytdl::{
    apply_signature, decipher, execute, ncode, plan_n, read_cipher_request, script_outcome,
    settle_n, sign_url, substitute_n, NPlan, ScriptError, ValueCache,
};

fn upper() -> (String, String) {
    ("up".to_string(), "var up=function(a){return a.toUpperCase()};".to_string())
}

fn none() -> (String, String) {
    (String::new(), String::new())
}

fn query(url: &str) -> Vec<(String, String)> {
    url::Url::parse(url).unwrap().query_pairs().into_owned().collect()
}

fn pair(name: &str, value: &str) -> (String, String) {
    (name.to_string(), value.to_string())
}

#[test]
fn decipher_without_a_source_returns_its_input() {
    let mut slot = None;
    for input in ["url=https://x?foo=1&s=abc&sp=sig", "", "not a query string", "s=abc"] {
        assert_eq!(decipher(input, &none(), &mut slot), input);
        assert!(slot.is_none());
    }
    let named = ("up".to_string(), String::new());
    assert_eq!(
        decipher("url=https://x?foo=1&s=abc&sp=sig", &named, &mut slot),
        "url=https://x?foo=1&s=abc&sp=sig"
    );
}

#[test]
fn decipher_sets_the_parameter_that_sp_names() {
    let mut slot = None;
    let out = decipher("url=https://x?foo=1&s=abc&sp=sig", &upper(), &mut slot);
    let parsed = url::Url::parse(&out).unwrap();
    assert_eq!(parsed.host_str(), Some("x"));
    assert_eq!(query(&out), vec![pair("foo", "1"), pair("sig", "ABC")]);
    assert_eq!(out, "https://x/?foo=1&sig=ABC");
    assert_eq!(slot.as_ref().map(|entry| entry.0.as_str()), Some(upper().1.as_str()));
}

#[test]
fn decipher_names_the_parameter_signature_without_sp() {
    let mut slot = None;
    let out = decipher("s=abc&url=https%3A%2F%2Fexample.com%2Fv%3Fa%3D1", &upper(), &mut slot);
    assert_eq!(out, "https://example.com/v?a=1&signature=ABC");
}

#[test]
fn decipher_replaces_a_parameter_that_is_there() {
    let mut slot = None;
    let out = decipher(
        "url=https%3A%2F%2Fexample.com%2Fv%3Fsig%3Dold%26a%3D1%26sig%3Dolder&s=new&sp=sig",
        &upper(),
        &mut slot,
    );
    assert_eq!(out, "https://example.com/v?sig=NEW&a=1&sig=NEW");
}

#[test]
fn decipher_leaves_a_text_without_url_or_s_as_it_is() {
    let mut slot = None;
    for input in ["s=abc&sp=sig", "url=https://x?foo=1&sp=sig", "foo=bar", ""] {
        assert_eq!(decipher(input, &upper(), &mut slot), input);
    }
    assert!(slot.is_none());
}

#[test]
fn decipher_falls_back_on_the_address_where_the_function_fails() {
    let input = "url=https://x?foo=1&s=abc&sp=sig";
    let broken = ("f".to_string(), "var f=function(a){".to_string());
    let missing = ("g".to_string(), "var f=function(a){return a};".to_string());
    let throwing = ("f".to_string(), "var f=function(a){throw new Error(a)};".to_string());
    let number = ("f".to_string(), "var f=function(a){return 7};".to_string());
    let no_function = ("f".to_string(), "var f=7;".to_string());
    for script in [broken, missing, throwing, number, no_function] {
        let mut slot = None;
        assert_eq!(decipher(input, &script, &mut slot), "https://x?foo=1");
    }
}

#[test]
fn decipher_falls_back_on_the_address_where_it_is_no_url() {
    let mut slot = None;
    assert_eq!(decipher("url=not a url&s=abc", &upper(), &mut slot), "not a url");
    assert_eq!(decipher("url=/relative?x=1&s=abc", &upper(), &mut slot), "/relative?x=1");
}

#[test]
fn cipher_request_reads_the_three_fields() {
    let r = read_cipher_request("url=https://x?foo=1&s=abc&sp=sig", "src").unwrap();
    assert_eq!((r.url.as_str(), r.s.as_str(), r.sp.as_str()), ("https://x?foo=1", "abc", "sig"));
    let r = read_cipher_request("s=a%20b&url=u", "src").unwrap();
    assert_eq!((r.url.as_str(), r.s.as_str(), r.sp.as_str()), ("u", "a b", "signature"));
    assert!(read_cipher_request("url=https://x?foo=1&s=abc&sp=sig", "").is_none());
    assert!(read_cipher_request("url=u", "src").is_none());
    assert!(read_cipher_request("s=abc", "src").is_none());
    assert!(read_cipher_request("url[a]=u&s=abc", "src").is_none());
}

#[test]
fn signing_encodes_the_signature() {
    assert_eq!(sign_url("https://x/?a=1", "sig", "A&B=C D"), "https://x/?a=1&sig=A%26B%3DC+D");
    assert_eq!(sign_url("https://x/", "sig", "S"), "https://x/?sig=S");
    assert_eq!(sign_url("https://x/?sig=1#frag", "sig", "S"), "https://x/?sig=S#frag");
    assert_eq!(sign_url("nonsense", "sig", "S"), "nonsense");
}

#[test]
fn apply_signature_follows_the_outcome() {
    assert_eq!(apply_signature("https://x/?a=1", "sig", Ok("S".to_string())), "https://x/?a=1&sig=S");
    for e in [ScriptError::Compile, ScriptError::Eval, ScriptError::ResultType] {
        assert_eq!(apply_signature("https://x/?a=1", "sig", Err(e)), "https://x/?a=1");
    }
}

#[test]
fn engine_tells_its_failures_apart() {
    let mut slot = None;
    assert_eq!(execute(&mut slot, "var f=function(a){", "f", "x"), Err(ScriptError::Compile));
    assert!(slot.is_none());
    assert_eq!(execute(&mut slot, "throw 1;", "f", "x"), Err(ScriptError::Compile));
    assert!(slot.is_none());
    assert_eq!(execute(&mut slot, "var f=function(a){return a};", "g", "x"), Err(ScriptError::Eval));
    assert!(slot.is_some());
    assert_eq!(execute(&mut slot, "var f=function(a){throw a};", "f", "x"), Err(ScriptError::Eval));
    assert_eq!(execute(&mut slot, "var f=1;", "f", "x"), Err(ScriptError::Eval));
    assert_eq!(
        execute(&mut slot, "var f=function(a){return a.length};", "f", "x"),
        Err(ScriptError::ResultType)
    );
    assert_eq!(execute(&mut slot, "var f=function(a){return a+a};", "f", "x"), Ok("xx".to_string()));
}

#[test]
fn engine_keeps_the_context_of_the_same_source() {
    let counting = "var c=0;var f=function(a){c=c+1;return a+c};";
    let mut slot = None;
    assert_eq!(execute(&mut slot, counting, "f", "x"), Ok("x1".to_string()));
    assert_eq!(execute(&mut slot, counting, "f", "x"), Ok("x2".to_string()));
    assert_eq!(execute(&mut slot, counting, "f", "y"), Ok("y3".to_string()));
    let other = "var c=10;var f=function(a){c=c+1;return a+c};";
    assert_eq!(execute(&mut slot, other, "f", "x"), Ok("x11".to_string()));
    assert_eq!(slot.as_ref().map(|entry| entry.0.as_str()), Some(other));
    assert_eq!(execute(&mut slot, counting, "f", "x"), Ok("x1".to_string()));
}

#[test]
fn engine_leaves_the_slot_where_the_new_source_does_not_compile() {
    let counting = "var c=0;var f=function(a){c=c+1;return a+c};";
    let mut slot = None;
    assert_eq!(execute(&mut slot, counting, "f", "x"), Ok("x1".to_string()));
    assert_eq!(execute(&mut slot, "var f=function(", "f", "x"), Err(ScriptError::Compile));
    assert_eq!(slot.as_ref().map(|entry| entry.0.as_str()), Some(counting));
    assert_eq!(execute(&mut slot, counting, "f", "x"), Ok("x2".to_string()));
}

#[test]
fn engine_takes_the_argument_as_a_value() {
    let echo = "var f=function(a){return a};";
    let mut slot = None;
    for argument in ["\")+(\"", "a\\", "line\nbreak", "'", "`${1}`", "фыва", ""] {
        assert_eq!(execute(&mut slot, echo, "f", argument), Ok(argument.to_string()));
    }
}

#[test]
fn engine_stops_a_script_that_loops_without_end() {
    let mut slot = None;
    assert_eq!(
        execute(&mut slot, "var f=function(a){for(;;){}};", "f", "x"),
        Err(ScriptError::Eval)
    );
}

#[test]
fn ncode_without_a_source_or_an_n_returns_the_address() {
    let mut cache = ValueCache::new();
    assert_eq!(ncode("https://x/?n=abc", &none(), &mut cache), "https://x/?n=abc");
    assert_eq!(ncode("https://x?a=1", &upper(), &mut cache), "https://x?a=1");
    assert_eq!(ncode("no url n=1", &upper(), &mut cache), "no url n=1");
    assert_eq!(ncode("", &upper(), &mut cache), "");
    assert_eq!(cache.len(), 0);
}

#[test]
fn ncode_replaces_n_and_remembers_the_result() {
    let mut cache = ValueCache::new();
    let out = ncode("https://x/v?a=1&n=abc&b=2", &upper(), &mut cache);
    assert_eq!(out, "https://x/v?a=1&n=ABC&b=2");
    assert_eq!(cache.len(), 1);
    assert_eq!(cache.get("abc"), Some("ABC".to_string()));
    assert_eq!(cache.get("ABC"), None);
    let out = ncode("https://x/?n=abc&n=def", &upper(), &mut cache);
    assert_eq!(out, "https://x/?n=ABC&n=ABC");
    let out = ncode("https://x/?n=a%20b", &upper(), &mut cache);
    assert_eq!(out, "https://x/?n=A+B");
    assert_eq!(cache.get("a b"), Some("A B".to_string()));
    assert_eq!(cache.len(), 2);
}

#[test]
fn ncode_runs_the_function_once_for_one_n() {
    let random = (
        "f".to_string(),
        "var f=function(a){return a+Math.random()+Math.random()};".to_string(),
    );
    let mut cache = ValueCache::new();
    let first = ncode("https://x/one?n=abc", &random, &mut cache);
    let computed = cache.get("abc").unwrap();
    assert_eq!(cache.len(), 1);
    let second = ncode("https://y/two?k=1&n=abc", &random, &mut cache);
    assert_eq!(cache.len(), 1);
    assert_eq!(cache.get("abc"), Some(computed.clone()));
    assert_eq!(query(&first), vec![pair("n", &computed)]);
    assert_eq!(query(&second), vec![pair("k", "1"), pair("n", &computed)]);
    match plan_n("https://z/?n=abc", &random.1, &cache) {
        NPlan::Cached(result) => assert_eq!(result, computed),
        _ => panic!("the function would be run again"),
    }
    match plan_n("https://z/?n=other", &random.1, &cache) {
        NPlan::Invoke(value) => assert_eq!(value, "other"),
        _ => panic!("a new value is computed"),
    }
    let mut fresh = ValueCache::new();
    let third = ncode("https://x/one?n=abc", &random, &mut fresh);
    assert_ne!(third, first);
}

#[test]
fn ncode_leaves_the_address_where_the_function_fails() {
    let mut cache = ValueCache::new();
    let broken = ("f".to_string(), "var f=function(a){".to_string());
    let number = ("f".to_string(), "var f=function(a){return 1};".to_string());
    assert_eq!(ncode("https://x/?n=abc", &broken, &mut cache), "https://x/?n=abc");
    assert_eq!(ncode("https://x/?n=abc", &number, &mut cache), "https://x/?n=abc");
    assert_eq!(cache.len(), 0);
}

#[test]
fn plan_is_unchanged_without_source_or_n() {
    let cache = ValueCache::new();
    assert!(matches!(plan_n("https://x/?n=abc", "", &cache), NPlan::Unchanged));
    assert!(matches!(plan_n("https://x/?m=abc", "src", &cache), NPlan::Unchanged));
    assert!(matches!(plan_n("nonsense", "src", &cache), NPlan::Unchanged));
    assert!(matches!(plan_n("https://x/?n=", "src", &cache), NPlan::Invoke(v) if v.is_empty()));
}

#[test]
fn substitute_replaces_every_n() {
    assert_eq!(substitute_n("https://x/?n=1&a=2&n=3", "N"), "https://x/?n=N&a=2&n=N");
    assert_eq!(substitute_n("https://x/?a=2", "N"), "https://x/?a=2");
    assert_eq!(substitute_n("https://x/", "N"), "https://x/?");
    assert_eq!(substitute_n("nonsense", "N"), "nonsense");
}

#[test]
fn the_outcome_of_a_call_follows_what_came_back() {
    assert_eq!(script_outcome(Some(Some("abc".to_string()))), Ok("abc".to_string()));
    assert_eq!(script_outcome(Some(Some(String::new()))), Ok(String::new()));
    assert_eq!(script_outcome(Some(None)), Err(ScriptError::ResultType));
    assert_eq!(script_outcome(None), Err(ScriptError::Eval));
}

#[test]
fn settling_follows_the_outcome() {
    let mut cache = ValueCache::new();
    let out = settle_n("https://x/?n=abc&a=1", "abc", Ok("ABC".to_string()), &mut cache);
    assert_eq!(out, "https://x/?n=ABC&a=1");
    assert_eq!(cache.get("abc"), Some("ABC".to_string()));
    assert_eq!(cache.len(), 1);
    for e in [ScriptError::Compile, ScriptError::Eval, ScriptError::ResultType] {
        let out = settle_n("https://x/?n=def&a=1", "def", Err(e), &mut cache);
        assert_eq!(out, "https://x/?n=def&a=1");
        assert_eq!(cache.get("def"), None);
        assert_eq!(cache.len(), 1);
    }
}
