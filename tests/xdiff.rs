use xdiff::json::empty_json_value;
use xdiff::cli::{parse_key_val, KeyVal, KeyValType};
use xdiff::{
    diff_text, is_default, DiffConfig, DiffProfile, ExtraArgs, Field, ResponseExt, RequestConfig, RequestProfile,
    ResponseProfile, ValidateConfig, XdiffError,
};

fn json(s: &str) -> serde_json::Value {
    serde_json::from_str(s).unwrap()
}

fn pairs(v: &[(&str, &str)]) -> Vec<(String, String)> {
    v.iter().map(|(a, b)| (a.to_string(), b.to_string())).collect()
}

fn profile(url: &str) -> RequestProfile {
    RequestProfile::new("GET".to_string(), url.to_string(), None, vec![], None)
}

fn header<'a>(h: &'a [(String, String)], k: &str) -> Option<&'a str> {
    h.iter().find(|(n, _)| n == k).map(|(_, v)| v.as_str())
}

fn query_value(q: &xdiff::JsonObject, k: &str) -> Option<serde_json::Value> {
    q.entries.iter().find(|(n, _)| n == k).map(|(_, v)| v.clone())
}

fn json_response(body: &str) -> ResponseExt {
    ResponseExt::new("HTTP/1.1 200 OK".to_string(), pairs(&[("content-type", "application/json")]), body.to_string())
}

#[test]
fn key_val_query() {
    let kv = parse_key_val("name=alice").unwrap();
    assert_eq!(kv.key_type, KeyValType::Query);
    assert_eq!(kv.key, "name");
    assert_eq!(kv.value, "alice");
}

#[test]
fn key_val_header_and_body() {
    let kv = parse_key_val("%Authorization = Bearer x").unwrap();
    assert_eq!(kv.key_type, KeyValType::Header);
    assert_eq!(kv.key, "Authorization");
    assert_eq!(kv.value, "Bearer x");
    let kv = parse_key_val("@count=3").unwrap();
    assert_eq!(kv.key_type, KeyValType::Body);
    assert_eq!(kv.key, "count");
    assert_eq!(kv.value, "3");
}

#[test]
fn key_val_splits_at_first_equals() {
    let kv = parse_key_val("q=a=b").unwrap();
    assert_eq!(kv.key, "q");
    assert_eq!(kv.value, "a=b");
}

#[test]
fn key_val_rejects_bad_tokens() {
    assert!(matches!(parse_key_val("novalue"), Err(XdiffError::InvalidKeyVal(s)) if s == "novalue"));
    assert!(matches!(parse_key_val("1a=2"), Err(XdiffError::InvalidKeyVal(s)) if s == "1a=2"));
    assert!(matches!(parse_key_val("=2"), Err(XdiffError::InvalidKeyVal(_))));
}

#[test]
fn extra_args_sorted_by_kind_in_order() {
    let kvs: Vec<KeyVal> = ["a=1", "%h=x", "@b=2", "c=3", "a=4"].iter().map(|s| parse_key_val(s).unwrap()).collect();
    let args: ExtraArgs = kvs.into();
    assert_eq!(args.query, pairs(&[("a", "1"), ("c", "3"), ("a", "4")]));
    assert_eq!(args.headers, pairs(&[("h", "x")]));
    assert_eq!(args.body, pairs(&[("b", "2")]));
}

#[test]
fn override_values_are_coerced() {
    let p = profile("https://x.com/a");
    let args = ExtraArgs { headers: vec![], query: pairs(&[("n", "42"), ("t", "true"), ("s", "hello")]), body: vec![] };
    let (_, q, _) = p.generate(&args).unwrap();
    assert_eq!(query_value(&q, "n"), Some(json("42")));
    assert_eq!(query_value(&q, "t"), Some(json("true")));
    assert_eq!(query_value(&q, "s"), Some(serde_json::Value::String("hello".to_string())));
}

#[test]
fn body_overrides_are_coerced_and_replace() {
    let mut p = profile("https://x.com/a");
    p.body = Some(json(r#"{"a":1,"b":"x"}"#));
    let args = ExtraArgs { headers: vec![], query: vec![], body: pairs(&[("a", "2"), ("c", "[1,2]")]) };
    let (_, _, body) = p.generate(&args).unwrap();
    assert_eq!(body, r#"{"a":2,"b":"x","c":[1,2]}"#);
}

#[test]
fn default_content_type_is_json() {
    let p = profile("https://x.com/a");
    let (h, q, body) = p.generate(&ExtraArgs::default()).unwrap();
    assert_eq!(header(&h, "content-type"), Some("application/json"));
    assert_eq!(q.entries.len(), 0);
    assert_eq!(body, "{}");
}

#[test]
fn generate_twice_gives_the_same() {
    let mut p = profile("https://x.com/a");
    p.params = Some(json(r#"{"x":1}"#));
    let args = ExtraArgs { headers: pairs(&[("X-Id", "7")]), query: pairs(&[("y", "2")]), body: pairs(&[("z", "no")]) };
    let a = p.generate(&args).unwrap();
    let b = p.generate(&args).unwrap();
    assert_eq!(a.0, b.0);
    assert_eq!(a.1.entries, b.1.entries);
    assert_eq!(a.2, b.2);
    assert_eq!(p.params, Some(json(r#"{"x":1}"#)));
    assert!(p.headers.is_empty());
}

#[test]
fn header_override_replaces_and_normalizes() {
    let mut p = profile("https://x.com/a");
    p.headers = pairs(&[("x-a", "old"), ("accept", "*/*")]);
    let args = ExtraArgs { headers: pairs(&[("X-A", "new")]), query: vec![], body: vec![] };
    let (h, _, _) = p.generate(&args).unwrap();
    assert_eq!(header(&h, "x-a"), Some("new"));
    assert_eq!(h.iter().filter(|(n, _)| n == "x-a").count(), 1);
    assert_eq!(header(&h, "accept"), Some("*/*"));
}

#[test]
fn unsupported_content_type_fails() {
    let p = profile("https://x.com/a");
    let args = ExtraArgs { headers: pairs(&[("Content-Type", "text/plain")]), query: vec![], body: vec![] };
    assert!(matches!(p.generate(&args), Err(XdiffError::UnsupportedContentType(s)) if s == "text/plain"));
}

#[test]
fn content_type_parameters_are_ignored() {
    let p = profile("https://x.com/a");
    let args = ExtraArgs {
        headers: pairs(&[("content-type", "application/json; charset=utf-8")]),
        query: vec![],
        body: pairs(&[("k", "v")]),
    };
    let (_, _, body) = p.generate(&args).unwrap();
    assert_eq!(body, r#"{"k":"v"}"#);
}

#[test]
fn form_body_is_urlencoded() {
    let p = profile("https://x.com/a");
    let args = ExtraArgs {
        headers: pairs(&[("content-type", "application/x-www-form-urlencoded")]),
        query: vec![],
        body: pairs(&[("a", "1"), ("b", "x y")]),
    };
    let (_, _, body) = p.generate(&args).unwrap();
    assert_eq!(body, "a=1&b=x+y");
}

#[test]
fn form_body_with_nested_value_fails() {
    let p = profile("https://x.com/a");
    let args = ExtraArgs {
        headers: pairs(&[("content-type", "multipart/form-data")]),
        query: vec![],
        body: pairs(&[("a", "{\"b\":1}")]),
    };
    assert!(matches!(p.generate(&args), Err(XdiffError::FormEncoding)));
}

#[test]
fn bad_header_name_and_value() {
    let p = profile("https://x.com/a");
    let args = ExtraArgs { headers: pairs(&[("bad name", "v")]), query: vec![], body: vec![] };
    assert!(matches!(p.generate(&args), Err(XdiffError::InvalidHeaderName(s)) if s == "bad name"));
    let args = ExtraArgs { headers: pairs(&[("x-a", "b\u{7f}")]), query: vec![], body: vec![] };
    assert!(matches!(p.generate(&args), Err(XdiffError::InvalidHeaderValue(s)) if s == "b\u{7f}"));
}

#[test]
fn params_must_be_an_object() {
    let mut p = profile("https://x.com/a");
    p.params = Some(json("[1,2]"));
    assert!(matches!(p.validate(), Err(XdiffError::NotAnObject { field: Field::Params, .. })));
    assert!(matches!(p.generate(&ExtraArgs::default()), Err(XdiffError::NotAnObject { field: Field::Params, .. })));
    let mut p = profile("https://x.com/a");
    p.body = Some(json("3"));
    assert!(matches!(p.validate(), Err(XdiffError::NotAnObject { field: Field::Body, .. })));
    assert!(profile("https://x.com/a").validate().is_ok());
}

#[test]
fn url_shows_query() {
    let p = profile("https://x.com/a");
    assert_eq!(p.get_url(&ExtraArgs::default()).unwrap(), "https://x.com/a");
    let args = ExtraArgs { headers: vec![], query: pairs(&[("b", "2")]), body: vec![] };
    assert_eq!(p.get_url(&args).unwrap(), "https://x.com/a?b=2");
}

#[test]
fn url_string_parses_into_profile() {
    let p = RequestProfile::from_url("https://x.com/a?x=1&y=2").unwrap();
    assert_eq!(p.method, "GET");
    assert_eq!(p.url, "https://x.com/a");
    assert_eq!(p.params, Some(json(r#"{"x":1,"y":2}"#)));
    assert!(p.headers.is_empty());
    assert!(p.body.is_none());
    let p: RequestProfile = "https://x.com/b?name=bob".parse().unwrap();
    assert_eq!(p.params, Some(json(r#"{"name":"bob"}"#)));
    assert!(matches!(RequestProfile::from_url("not a url"), Err(XdiffError::InvalidUrl(_))));
}

#[test]
fn response_text_layout() {
    let r = ResponseExt::new(
        "HTTP/1.1 200 OK".to_string(),
        pairs(&[("content-type", "application/json"), ("date", "today"), ("x-id", "1")]),
        r#"{"id":1,"name":"a","t":5}"#.to_string(),
    );
    let p = ResponseProfile::new(vec!["date".to_string()], vec!["t".to_string()]);
    let t = r.get_text(&p).unwrap();
    assert_eq!(
        t,
        "HTTP/1.1 200 OK\ncontent-type: application/json\nx-id: 1\n\n{\n  \"id\": 1,\n  \"name\": \"a\"\n}\n"
    );
}

#[test]
fn skip_names_absent_change_nothing() {
    let r = json_response(r#"{"id":1}"#);
    let none = ResponseProfile::default();
    let absent = ResponseProfile::new(vec!["x-nothing".to_string()], vec!["nothing".to_string(), "ID".to_string()]);
    assert_eq!(r.get_text(&none).unwrap(), r.get_text(&absent).unwrap());
}

#[test]
fn non_json_and_non_object_bodies_pass_through() {
    let r = ResponseExt::new("HTTP/1.1 200 OK".to_string(), pairs(&[("content-type", "text/plain")]), "{ raw".to_string());
    assert_eq!(r.get_text(&ResponseProfile::default()).unwrap(), "HTTP/1.1 200 OK\ncontent-type: text/plain\n\n{ raw\n");
    let r = json_response("[1]");
    let p = ResponseProfile::new(vec![], vec!["a".to_string()]);
    assert_eq!(r.get_text(&p).unwrap(), "HTTP/1.1 200 OK\ncontent-type: application/json\n\n[\n  1\n]\n");
}

#[test]
fn declared_json_that_is_not_json_fails() {
    let r = json_response("{oops");
    assert!(matches!(r.get_text(&ResponseProfile::default()), Err(XdiffError::ResponseNotJson)));
}

#[test]
fn header_keys_in_order() {
    let r = ResponseExt::new("s".to_string(), pairs(&[("b", "1"), ("a", "2")]), String::new());
    assert_eq!(r.get_header_keys(), vec!["b".to_string(), "a".to_string()]);
}

#[test]
fn diff_of_identical_texts_is_empty() {
    assert_eq!(diff_text("a\nb\nc\n", "a\nb\nc\n"), "");
    assert_eq!(diff_text("", ""), "");
}

#[test]
fn diff_of_one_changed_line() {
    let d = diff_text("1\n2\n3\n4\n5\n6\n7\n8\n", "1\n2\n3\n4\nX\n6\n7\n8\n");
    assert_eq!(d, " 2\n 3\n 4\n-5\n+X\n 6\n 7\n 8\n");
}

#[test]
fn diff_of_added_lines() {
    assert_eq!(diff_text("a\n", "a\nb\n"), " a\n+b\n");
    assert_eq!(diff_text("a\nb\n", "b\n"), "-a\n b\n");
}

#[test]
fn diff_profile_end_to_end() {
    let req1 = RequestProfile::new("GET".to_string(), "https://api.example.com/users".to_string(), None, vec![], None);
    let req2 = RequestProfile::new("GET".to_string(), "https://api.example.com/v2/users".to_string(), None, vec![], None);
    let dp = DiffProfile::new(req1, req2, ResponseProfile::default());
    let out = dp.diff(&json_response(r#"{"id":1,"name":"a"}"#), &json_response(r#"{"id":1,"name":"b"}"#)).unwrap();
    assert_eq!(out, " \n {\n   \"id\": 1,\n-  \"name\": \"a\"\n+  \"name\": \"b\"\n }\n");
    let changed: Vec<&str> = out.lines().filter(|l| l.starts_with('-') || l.starts_with('+')).collect();
    assert_eq!(changed, vec!["-  \"name\": \"a\"", "+  \"name\": \"b\""]);
}

#[test]
fn config_lookup_and_validation() {
    let good = DiffProfile::new(profile("https://a.com/"), profile("https://b.com/"), ResponseProfile::default());
    let mut bad_req = profile("https://b.com/");
    bad_req.body = Some(json("[1]"));
    let bad = DiffProfile::new(profile("https://a.com/"), bad_req, ResponseProfile::default());
    let cfg = DiffConfig::new(vec![("ok".to_string(), good.clone()), ("broken".to_string(), bad)]);
    assert!(cfg.get_profile("ok").is_some());
    assert!(cfg.get_profile("missing").is_none());
    match cfg.validate() {
        Err(XdiffError::NotAnObject { profile, request, field }) => {
            assert_eq!(profile, "broken");
            assert_eq!(request, "req2");
            assert_eq!(field, Field::Body);
        },
        other => panic!("unexpected {:?}", other),
    }
    assert!(DiffConfig::new(vec![("ok".to_string(), good)]).validate().is_ok());
    let rc = RequestConfig::new(vec![("one".to_string(), profile("https://a.com/"))]);
    assert_eq!(rc.get_profile("one").unwrap().url, "https://a.com/");
    assert!(rc.validate().is_ok());
}

#[test]
fn response_profile_default() {
    assert!(is_default(&ResponseProfile::default()));
    assert!(!is_default(&ResponseProfile::new(vec!["a".to_string()], vec![])));
    assert_eq!(ResponseProfile::default(), ResponseProfile::new(vec![], vec![]));
}

#[test]
fn error_messages_name_the_input() {
    assert!(XdiffError::InvalidKeyVal("zz".to_string()).message().contains("zz"));
    assert!(XdiffError::UnsupportedContentType("text/plain".to_string()).message().contains("text/plain"));
}

#[test]
fn skip_headers_match_exact_names() {
    let r = ResponseExt::new("HTTP/1.1 200 OK".to_string(), pairs(&[("date", "today")]), "x".to_string());
    let upper = ResponseProfile::new(vec!["Date".to_string()], vec![]);
    assert_eq!(r.get_text(&upper).unwrap(), "HTTP/1.1 200 OK\ndate: today\n\nx\n");
    let exact = ResponseProfile::new(vec!["date".to_string()], vec![]);
    assert_eq!(r.get_text(&exact).unwrap(), "HTTP/1.1 200 OK\n\nx\n");
}

#[test]
fn diff_treats_crlf_as_line_end() {
    assert_eq!(diff_text("a\r\nb\r\n", "a\nb\n"), "");
}

#[test]
fn url_reads_the_query_alone() {
    let mut p = profile("https://x.com/a");
    p.headers = pairs(&[("content-type", "text/plain")]);
    assert_eq!(p.get_url(&ExtraArgs::default()).unwrap(), "https://x.com/a");
    let args = ExtraArgs {
        headers: pairs(&[("x-a", "line\nfeed")]),
        query: pairs(&[("b", "2")]),
        body: pairs(&[("c", "3")]),
    };
    assert_eq!(p.get_url(&args).unwrap(), "https://x.com/a?b=2");
    let mut bad = profile("https://x.com/a");
    bad.params = Some(json("[1]"));
    assert!(matches!(bad.get_url(&ExtraArgs::default()), Err(XdiffError::NotAnObject { field: Field::Params, .. })));
}

#[test]
fn url_string_values_fall_back_to_strings() {
    let p: RequestProfile = "https://x.com/a?name=abc&n=3".parse().unwrap();
    assert_eq!(p.method, "GET");
    assert_eq!(p.url, "https://x.com/a");
    assert_eq!(p.params, Some(json(r#"{"name":"abc","n":3}"#)));
    let r: Result<RequestProfile, XdiffError> = "not a url".parse();
    assert!(matches!(r, Err(XdiffError::InvalidUrl(s)) if s == "not a url"));
}

#[test]
fn empty_json_values() {
    assert!(empty_json_value(&None));
    assert!(empty_json_value(&Some(json("null"))));
    assert!(empty_json_value(&Some(json("{}"))));
    assert!(!empty_json_value(&Some(json(r#"{"a":1}"#))));
    assert!(!empty_json_value(&Some(json("[]"))));
}

#[test]
fn error_messages_are_exact() {
    assert_eq!(XdiffError::InvalidKeyVal("zz".to_string()).message(), "Invalid key value pair: zz");
    let e = XdiffError::NotAnObject { profile: "p".to_string(), request: "req1".to_string(), field: Field::Body };
    assert_eq!(e.message(), "Body must be an object (profile: p, request: req1)");
}

#[test]
fn diff_of_a_changed_multiline_field() {
    let a = ResponseExt::new("HTTP/1.1 200 OK".to_string(), pairs(&[("content-type", "application/json")]),
        r#"{"a":1,"b":{"x":1,"y":2},"c":3}"#.to_string());
    let b = ResponseExt::new("HTTP/1.1 200 OK".to_string(), pairs(&[("content-type", "application/json")]),
        r#"{"a":1,"b":{"x":5,"y":6},"c":3}"#.to_string());
    let p = ResponseProfile::default();
    let d = diff_text(&a.get_text(&p).unwrap(), &b.get_text(&p).unwrap());
    let changed: Vec<&str> = d.lines().filter(|l| l.starts_with('-') || l.starts_with('+')).collect();
    assert_eq!(changed, vec!["-    \"x\": 1,", "-    \"y\": 2", "+    \"x\": 5,", "+    \"y\": 6"]);
}

#[test]
fn lines_cut_as_str_lines() {
    for t in ["", "a", "a\n", "a\r\nb", "a\r", "\n\nb\n", "x\r\r\ny\n\n"] {
        let expected: Vec<String> = t.lines().map(|l| l.to_string()).collect();
        assert_eq!(xdiff::diff::split_lines(t), expected, "text {:?}", t);
    }
    assert_eq!(xdiff::diff::split_lines("a\r\nb\n"), vec!["a".to_string(), "b".to_string()]);
}
