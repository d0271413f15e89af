use rusty_ytdl::{
    decipher, extract_functions, ncode, PlayerAction, PlayerFunctionSet, ValueCache,
};

const DECIPHER: &str = r#"abc=function(a){a=a.split("");Xy.ab(a,1);Xy.cd(a,2);return a.join("")}"#;
const HELPERS: &str = r#"var Xy={ab:function(a){a.reverse()},cd:function(a,b){a.splice(0,b)}}"#;
const NCODE: &str = r#"xyz=function(a){var b=a.split("");b.reverse();return "n"+b.join("")}"#;

fn player(decipher_call: bool, n_call: bool) -> String {
    let mut body = String::from("var window=this;(function(g){var q={};\n");
    body.push_str(HELPERS);
    body.push_str(";\nvar unrelated={a:\"}\",b:/}/};\n");
    body.push_str(DECIPHER);
    body.push_str(";\n");
    if decipher_call {
        body.push_str(r#"if(x){a.set("alr","yes");c&&(c=abc(decodeURIComponent(c)),a.set(b,encodeURIComponent(c)))}"#);
    }
    body.push_str("\nvar nfn=[xyz];\n");
    body.push_str(NCODE);
    body.push_str(";\n");
    if n_call {
        body.push_str(r#"a.D&&(b=a.get("n"))&&(b=nfn[0](b),a.set("n",b))"#);
    }
    body.push_str("\n})(_yt_player);");
    body
}

#[test]
fn extracts_the_two_functions_in_order() {
    let functions = extract_functions(player(true, true));
    assert_eq!(functions.len(), 2);
    assert_eq!(functions[0].0, "abc");
    assert_eq!(functions[0].1, format!("{};var {};", HELPERS, DECIPHER));
    assert_eq!(functions[1].0, "xyz");
    assert_eq!(functions[1].1, format!("var {};", NCODE));
}

#[test]
fn a_function_that_is_not_found_is_left_out() {
    let only_n = extract_functions(player(false, true));
    assert_eq!(only_n.len(), 1);
    assert_eq!(only_n[0].0, "xyz");
    let only_decipher = extract_functions(player(true, false));
    assert_eq!(only_decipher.len(), 1);
    assert_eq!(only_decipher[0].0, "abc");
    assert!(extract_functions(player(false, false)).is_empty());
    assert!(extract_functions(String::new()).is_empty());
    assert!(extract_functions("no functions here".to_string()).is_empty());
}

#[test]
fn a_function_without_a_definition_is_left_out() {
    let body = r#"a.set("alr","yes");c&&(c=abc(decodeURIComponent(c)));&&(b=a.get("n"))&&(b=xyz(b)"#;
    assert!(extract_functions(body.to_string()).is_empty());
    let unbalanced = r#"abc=function(a){return a;a.set("alr","yes");c&&(c=abc(decodeURIComponent(c))"#;
    assert!(extract_functions(unbalanced.to_string()).is_empty());
}

#[test]
fn a_function_without_manipulations_stands_alone() {
    let body = r#"abc=function(a){return a+"1"};a.set("alr","yes");c&&(c=abc(decodeURIComponent(c)))"#;
    let functions = extract_functions(body.to_string());
    assert_eq!(functions.len(), 1);
    assert_eq!(functions[0].0, "abc");
    assert_eq!(functions[0].1, r#";var abc=function(a){return a+"1"};"#);
}

#[test]
fn manipulations_that_cannot_be_cut_out_leave_the_function_out() {
    let body = r#"abc=function(a){a=a.split("");Xy.ab(a,1);return a.join("")};a.set("alr","yes");c&&(c=abc(decodeURIComponent(c)))"#;
    assert!(extract_functions(body.to_string()).is_empty());
    let unclosed = format!("var Xy={{ab:function(a){{a.reverse()}};{}", body);
    assert!(extract_functions(unclosed).is_empty());
}

#[test]
fn line_feeds_are_taken_out_of_the_sources() {
    let body = "abc=function(a){\nreturn a+\n\"1\"\n};\na.set(\"alr\",\"yes\");c&&(c=abc(decodeURIComponent(c)))";
    let functions = extract_functions(body.to_string());
    assert_eq!(functions[0].1, r#";var abc=function(a){return a+"1"};"#);
}

#[test]
fn the_name_of_the_n_function_may_be_given_directly() {
    let body = r#"xyz=function(a){return a};&&(b=a.get("n"))&&(b=xyz(b),a.set("n",b))"#;
    let functions = extract_functions(body.to_string());
    assert_eq!(functions.len(), 1);
    assert_eq!(functions[0], ("xyz".to_string(), "var xyz=function(a){return a};".to_string()));
}

#[test]
fn text_that_is_not_ascii_is_carried_over() {
    let body = "/* фыва */abc=function(a){return a+\"ы\"};a.set(\"alr\",\"yes\");c&&(c=abc(decodeURIComponent(c)))";
    let functions = extract_functions(body.to_string());
    assert_eq!(functions[0].1, ";var abc=function(a){return a+\"ы\"};");
}

#[test]
fn the_extracted_functions_run() {
    let functions = extract_functions(player(true, true));
    let mut slot = None;
    let out = decipher("url=https://x/v?a=1&s=12345&sp=sig", &functions[0], &mut slot);
    assert_eq!(out, "https://x/v?a=1&sig=321");
    let mut cache = ValueCache::new();
    let out = ncode("https://x/v?n=abc", &functions[1], &mut cache);
    assert_eq!(out, "https://x/v?n=ncba");
    assert_eq!(cache.get("abc"), Some("ncba".to_string()));
}

#[test]
fn the_set_is_empty_at_first_and_holds_one_script() {
    let mut set = PlayerFunctionSet::new();
    assert!(set.lookup("https://www.youtube.com/s/player/1/base.js").is_none());
    assert!(matches!(set.request("https://www.youtube.com/s/player/1/base.js"), PlayerAction::Fetch));
    let got = set.refresh("https://www.youtube.com/s/player/1/base.js", player(true, true));
    assert_eq!(got.len(), 2);
    assert_eq!(set.lookup("https://www.youtube.com/s/player/1/base.js"), Some(got.clone()));
    match set.request("https://www.youtube.com/s/player/1/base.js") {
        PlayerAction::Serve(functions) => assert_eq!(functions, got),
        PlayerAction::Fetch => panic!("the functions are held"),
    }
    assert!(set.lookup("https://www.youtube.com/s/player/2/base.js").is_none());
    let other = set.refresh("https://www.youtube.com/s/player/2/base.js", player(false, true));
    assert_eq!(other.len(), 1);
    assert!(set.lookup("https://www.youtube.com/s/player/1/base.js").is_none());
    assert_eq!(set.lookup("https://www.youtube.com/s/player/2/base.js"), Some(other));
}
