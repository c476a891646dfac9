use axum::http::{HeaderMap, HeaderValue};
use demo::auth::check::{in_check, session_context, CheckAction};
use demo::auth::models::AuToken;

fn with_cookie(text: &str) -> HeaderMap {
    let mut h = HeaderMap::new();
    h.insert("cookie", HeaderValue::from_str(text).unwrap());
    h
}

fn token(id: i32, name: &str) -> AuToken {
    AuToken {
        id,
        email: format!("{}@example.org", name),
        username: name.to_string(),
        status: vec!["member".to_string()],
    }
}

fn unlock(a: &CheckAction) -> (String, String) {
    match a {
        CheckAction::Unlock { path, visit } => (path.clone(), visit.clone()),
        CheckAction::Finish(_) => panic!("expected an unlock"),
    }
}

#[test]
fn in_check_without_cookie_is_anonymous() {
    let (_, a) = in_check(HeaderMap::new());
    assert!(matches!(a, CheckAction::Finish(Ok(None))));
}

#[test]
fn in_check_without_visit_gives_empty_identity() {
    let (_, a) = in_check(with_cookie("user=bob; dialogue=abc"));
    match a {
        CheckAction::Finish(Ok(Some(t))) => assert_eq!(t, AuToken::default()),
        _ => panic!("expected the empty identity"),
    }
}

#[test]
fn in_check_unlocks_visit_with_key_file() {
    let (mut st, a) = in_check(with_cookie("user=bob; dialogue=abc; visit=tok"));
    assert_eq!(
        unlock(&a),
        ("./static/de_key/user/bob/abc.der".to_string(), "tok".to_string())
    );
    match st.resume(Ok(token(7, "bob"))) {
        CheckAction::Finish(Ok(Some(t))) => assert_eq!(t, token(7, "bob")),
        _ => panic!("expected the identity"),
    }
}

#[test]
fn in_check_error_stops_check() {
    let (mut st, _) = in_check(with_cookie("visit=a; visit=b"));
    match st.resume(Err(Some("No such file or directory".to_string()))) {
        CheckAction::Finish(Err(Some(m))) => assert_eq!(m, "No such file or directory"),
        _ => panic!("expected the error"),
    }
}

#[test]
fn in_check_repeated_visits_accumulate() {
    let (mut st, a) = in_check(with_cookie("visit=a; visit=b"));
    assert_eq!(unlock(&a), (String::new(), "a".to_string()));
    let a = st.resume(Ok(token(1, "x")));
    assert_eq!(unlock(&a), (String::new(), "ab".to_string()));
    match st.resume(Ok(token(2, "y"))) {
        CheckAction::Finish(Ok(Some(t))) => assert_eq!(t, token(2, "y")),
        _ => panic!("expected the last identity"),
    }
}

#[test]
fn in_check_repeated_dialogues_extend_path() {
    let (_, a) = in_check(with_cookie("user=u; dialogue=x; dialogue=y; visit=t"));
    assert_eq!(unlock(&a).0, "./static/de_key/user/u/x.der/xy.der");
}

#[test]
fn sqlx_in_check_without_cookie_is_error() {
    let (_, a) = demo::sqlx::check::in_check(HeaderMap::new());
    assert!(matches!(a, CheckAction::Finish(Err(None))));
}

#[test]
fn sqlx_in_check_unreadable_cookie_is_error() {
    let mut h = HeaderMap::new();
    h.insert("cookie", HeaderValue::from_bytes(&[b'v', b'=', 0xFF]).unwrap());
    match demo::sqlx::check::in_check(h).1 {
        CheckAction::Finish(Err(Some(m))) => assert_eq!(m, "failed to convert header to a str"),
        _ => panic!("expected the conversion error"),
    }
}

#[test]
fn sqlx_in_check_unlocks_like_plain_variant() {
    let (_, a) = demo::sqlx::check::in_check(with_cookie("visit=T; dialogue=D; user=e@x"));
    assert_eq!(unlock(&a), ("./static/de_key/user/e@x/D.der".to_string(), "T".to_string()));
}

#[test]
fn session_context_hides_errors() {
    assert_eq!(session_context(Err(Some("bad".to_string()))), Ok(None));
    assert_eq!(session_context(Err(None)), Ok(None));
    assert_eq!(session_context(Ok(Some(token(3, "z")))), Ok(Some(token(3, "z"))));
    assert_eq!(session_context(Ok(None)), Ok(None));
}
