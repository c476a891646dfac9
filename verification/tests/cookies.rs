use axum::http::{HeaderMap, HeaderValue};
use demo::auth::views::{
    is_readable, a_check, cookie_check, get_cookie, headers_in, parse_cookie, read_msg, some_cookie,
    some_headers,
};

fn with_cookie(text: &str) -> HeaderMap {
    let mut h = HeaderMap::new();
    h.insert("cookie", HeaderValue::from_str(text).unwrap());
    h
}

fn with_cookie_bytes(bytes: &[u8]) -> HeaderMap {
    let mut h = HeaderMap::new();
    h.insert("cookie", HeaderValue::from_bytes(bytes).unwrap());
    h
}

#[test]
fn get_cookie_without_header_is_none_text() {
    assert_eq!(get_cookie("user".to_string(), HeaderMap::new()), "None");
}

#[test]
fn get_cookie_reads_named_value() {
    let h = with_cookie("user=bob; dialogue=abc; visit=tok");
    assert_eq!(get_cookie("user".to_string(), h.clone()), "bob");
    assert_eq!(get_cookie("dialogue".to_string(), h.clone()), "abc");
    assert_eq!(get_cookie("visit".to_string(), h.clone()), "tok");
    assert_eq!(get_cookie("other".to_string(), h), "");
}

#[test]
fn get_cookie_joins_repeated_names() {
    let h = with_cookie("a=1; b=2; a=3");
    assert_eq!(get_cookie("a".to_string(), h.clone()), "13");
    assert_eq!(get_cookie("b".to_string(), h), "2");
}

#[test]
fn cookie_value_is_after_last_equals_sign() {
    let h = with_cookie("x=1=2; y");
    assert_eq!(get_cookie("x".to_string(), h.clone()), "2");
    // a piece without `=` is its own name and value
    assert_eq!(get_cookie("y".to_string(), h), "y");
}

#[test]
fn cookie_pieces_split_without_space_too() {
    let h = with_cookie("a=1;b=2;  c=3");
    assert_eq!(get_cookie("b".to_string(), h.clone()), "2");
    // only one space after `;` is dropped
    assert_eq!(get_cookie(" c".to_string(), h.clone()), "3");
    assert_eq!(get_cookie("c".to_string(), h), "");
}

#[test]
fn cookie_field_name_is_case_insensitive() {
    let mut h = HeaderMap::new();
    h.insert("Cookie", HeaderValue::from_static("k=v"));
    assert_eq!(get_cookie("k".to_string(), h), "v");
}

#[test]
fn some_cookie_without_header_is_empty() {
    assert_eq!(some_cookie("user".to_string(), HeaderMap::new()), Some(String::new()));
    assert_eq!(
        some_cookie("user".to_string(), with_cookie("user=ann")),
        Some("ann".to_string())
    );
}

#[test]
fn parse_cookie_reports_absence() {
    assert_eq!(parse_cookie("user".to_string(), HeaderMap::new()), Ok(None));
    assert_eq!(
        parse_cookie("user".to_string(), with_cookie("user=ann; k=v")),
        Ok(Some("ann".to_string()))
    );
    assert_eq!(
        parse_cookie("zzz".to_string(), with_cookie("user=ann")),
        Ok(Some(String::new()))
    );
}

#[test]
fn read_msg_splits_at_commas() {
    let r = read_msg(with_cookie("to_msg=hello,world,; other=x")).unwrap().unwrap();
    assert_eq!(r, vec!["hello".to_string(), "world".to_string(), String::new()]);
    let r = read_msg(HeaderMap::new()).unwrap().unwrap();
    assert_eq!(r, vec![String::new()]);
}

#[test]
fn read_msg_rejoined_gives_cookie_back() {
    let h = with_cookie("to_msg=a,b,,c");
    let parts = read_msg(h.clone()).unwrap().unwrap();
    assert_eq!(parts.join(","), some_cookie("to_msg".to_string(), h).unwrap());
}

#[test]
fn a_check_results() {
    assert_eq!(a_check(HeaderMap::new()), Ok(None));
    assert_eq!(a_check(with_cookie("a=b; c=d")), Ok(Some("a=b; c=d".to_string())));
    assert_eq!(
        a_check(with_cookie_bytes(&[b'a', b'=', 0xC3, 0xA9])),
        Err(Some("failed to convert header to a str".to_string()))
    );
    // a tab is visible in the sense of `to_str`
    assert_eq!(a_check(with_cookie_bytes(b"a=\tb")), Ok(Some("a=\tb".to_string())));
}

#[test]
fn cookie_presence_functions_agree() {
    let h = with_cookie("a=b");
    assert!(cookie_check(h.clone()));
    assert!(!cookie_check(HeaderMap::new()));
    assert_eq!(some_headers(h.clone()).unwrap().as_bytes(), b"a=b");
    assert!(some_headers(HeaderMap::new()).is_none());
    assert_eq!(headers_in(h).unwrap().as_bytes(), b"a=b");
    assert!(matches!(headers_in(HeaderMap::new()), Err(None)));
}

#[test]
fn first_cookie_field_is_read() {
    let mut h = HeaderMap::new();
    h.append("cookie", HeaderValue::from_static("a=1"));
    h.append("cookie", HeaderValue::from_static("a=2"));
    assert_eq!(get_cookie("a".to_string(), h), "1");
}

#[test]
fn readability_by_reference() {
    assert!(is_readable(&HeaderMap::new()));
    assert!(is_readable(&with_cookie("a=b")));
    assert!(!is_readable(&with_cookie_bytes(&[b'a', b'=', 0xC3, 0xA9])));
}
