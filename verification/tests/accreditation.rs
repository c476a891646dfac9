use axum::http::{HeaderMap, HeaderValue};
use demo::auth::accreditation::{
    key_dir, key_file, login_cookies, login_destination, login_keys, login_keys_with, login_step,
    new_user, new_user_with_salt, no_session_notice, profile_update, refusal_notice,
    session_end_cookie, set_cookie, signup_destination, update_destination, LoginAction,
    LoginEvent, LoginRefusal, LoginStage, SESSION_HOURS,
};
use demo::auth::check::{in_check, CheckAction};
use demo::auth::handlers::{page_failure, Page};
use demo::auth::models::{AuToken, FormNewUser, FormUpdateUser, VeriUser};
use demo::auth::password::{check_password, hash_password_with};
use demo::sqlx::accreditation::{signup_step, SignupAction, SignupStage};

#[test]
fn set_cookie_text() {
    assert_eq!(
        set_cookie("visit", "abc"),
        "visit=abc; Path=/; HttpOnly=true; SameSite=lax"
    );
    assert_eq!(session_end_cookie(), "visit=_; Path=/; HttpOnly=true; SameSite=lax");
}

#[test]
fn key_locations() {
    assert_eq!(key_dir("a@b.c"), "./static/de_key/user/a@b.c");
    assert_eq!(key_file("a@b.c", "XYZ"), "./static/de_key/user/a@b.c/XYZ.der");
    let k = login_keys_with("a@b.c", "Q1w2E3r4T5y6".to_string());
    assert_eq!(k.dialogue, "Q1w2E3r4T5y6");
    assert_eq!(k.dir, "./static/de_key/user/a@b.c");
    assert_eq!(k.file, "./static/de_key/user/a@b.c/Q1w2E3r4T5y6.der");
}

#[test]
fn fresh_login_keys() {
    let k = login_keys("m@n.o");
    assert_eq!(k.dialogue.len(), 12);
    assert!(k.dialogue.chars().all(|c| c.is_ascii_alphanumeric()));
    assert_eq!(k.file, key_file("m@n.o", &k.dialogue));
}

fn row() -> VeriUser {
    VeriUser {
        id: 5,
        email: "e@x".to_string(),
        username: "eve".to_string(),
        status: vec!["admin".to_string()],
    }
}

#[test]
fn login_granted_path() {
    let (s, a) = login_step(LoginStage::Email, LoginEvent::EmailLookup(true));
    assert!(s == LoginStage::Password && matches!(a, LoginAction::CheckPassword));
    let (s, a) = login_step(s, LoginEvent::PasswordVerdict(true));
    assert!(s == LoginStage::Profile && matches!(a, LoginAction::FetchProfile));
    let (s, a) = login_step(s, LoginEvent::ProfileRow(Some(row())));
    assert!(s == LoginStage::Over);
    match a {
        LoginAction::Grant(t) => assert_eq!(
            t,
            AuToken {
                id: 5,
                email: "e@x".to_string(),
                username: "eve".to_string(),
                status: vec!["admin".to_string()],
            }
        ),
        _ => panic!("expected a grant"),
    }
}

#[test]
fn login_refusals() {
    let (_, a) = login_step(LoginStage::Email, LoginEvent::EmailLookup(false));
    assert!(matches!(a, LoginAction::Refuse(LoginRefusal::UnknownEmail)));
    let (_, a) = login_step(LoginStage::Password, LoginEvent::PasswordVerdict(false));
    assert!(matches!(a, LoginAction::Refuse(LoginRefusal::WrongPassword)));
    let (_, a) = login_step(LoginStage::Profile, LoginEvent::ProfileRow(None));
    assert!(matches!(a, LoginAction::Refuse(LoginRefusal::NoProfile)));
    let n = refusal_notice(&LoginRefusal::UnknownEmail).unwrap();
    assert_eq!((n.key.as_str(), n.text.as_str()), ("for_email", "this email is not available..!"));
    let n = refusal_notice(&LoginRefusal::WrongPassword).unwrap();
    assert_eq!((n.key.as_str(), n.text.as_str()), ("for_password", "password is not correct..!"));
    assert!(refusal_notice(&LoginRefusal::NoProfile).is_none());
}

#[test]
fn login_response_parts() {
    assert_eq!(login_destination(), "/account/users");
    assert_eq!(
        login_cookies("TOK"),
        vec!["visit=TOK; Path=/; HttpOnly=true; SameSite=lax".to_string()]
    );
    assert_eq!(SESSION_HOURS, 2);
    assert_eq!(
        demo::sqlx::accreditation::login_cookies("TOK", "DLG", "e@x"),
        vec![
            "visit=TOK; Path=/; HttpOnly=true; SameSite=lax".to_string(),
            "dialogue=DLG; Path=/; HttpOnly=true; SameSite=lax".to_string(),
            "user=e@x; Path=/; HttpOnly=true; SameSite=lax".to_string(),
        ]
    );
}

#[test]
fn login_cookies_lead_back_to_key() {
    let keys = login_keys("e@x");
    let mut h = HeaderMap::new();
    let header = format!("visit=TOK.abc; dialogue={}; user=e@x", keys.dialogue);
    h.insert("cookie", HeaderValue::from_str(&header).unwrap());
    let (_, a) = demo::sqlx::check::in_check(h);
    match a {
        CheckAction::Unlock { path, visit } => {
            assert_eq!(path, keys.file);
            assert_eq!(visit, "TOK.abc");
        }
        _ => panic!("expected an unlock"),
    }
}

#[test]
fn plain_login_cookie_names_no_key_file() {
    let mut h = HeaderMap::new();
    h.insert("cookie", HeaderValue::from_static("visit=TOK"));
    let (_, a) = in_check(h);
    match a {
        CheckAction::Unlock { path, visit } => {
            assert_eq!(path, "");
            assert_eq!(visit, "TOK");
        }
        _ => panic!("expected an unlock"),
    }
}

#[test]
fn signup_steps() {
    let (s, a) = signup_step(SignupStage::Email, true);
    assert!(s == SignupStage::Username && matches!(a, SignupAction::CheckUsername));
    let (s, a) = signup_step(s, true);
    assert!(s == SignupStage::Over && matches!(a, SignupAction::Store));
    match signup_step(SignupStage::Email, false).1 {
        SignupAction::Refuse(n) => assert_eq!((n.key.as_str(), n.text.as_str()), ("err", "email already exists..")),
        _ => panic!("expected a refusal"),
    }
    match signup_step(SignupStage::Username, false).1 {
        SignupAction::Refuse(n) => assert_eq!((n.key.as_str(), n.text.as_str()), ("err", "username already exists..")),
        _ => panic!("expected a refusal"),
    }
    assert_eq!(signup_destination(), "/account/users");
}

#[test]
fn profile_updates() {
    let form = || FormUpdateUser { email: "n@e.w".to_string(), username: "new".to_string() };
    assert!(profile_update(None, form()).is_none());
    let t = AuToken { id: 9, email: "o@l.d".to_string(), username: "old".to_string(), status: vec![] };
    let u = profile_update(Some(t), form()).unwrap();
    assert_eq!((u.id, u.email.as_str(), u.username.as_str()), (9, "n@e.w", "new"));
    assert_eq!(update_destination(), "/account/login");
    let n = no_session_notice();
    assert_eq!((n.key.as_str(), n.text.as_str()), ("err", "None AuToken..!"));
}

#[test]
fn page_failures() {
    let n = page_failure(Page::User, Some("db down".to_string()));
    assert_eq!((n.key.as_str(), n.text.as_str()), ("err", "db down"));
    let n = page_failure(Page::User, None);
    assert_eq!((n.key.as_str(), n.text.as_str()), ("is_no", "Caramba bullfighting and damn it"));
    let n = page_failure(Page::Index, None);
    assert_eq!(n.text, "index Err Caramba bullfighting and damn it");
    let n = page_failure(Page::Users, None);
    assert_eq!(n.text, "Err-None Caramba bullfighting and damn it");
    let n = page_failure(Page::Update, None);
    assert_eq!(n.text, "Caramba bullfighting and damn it");
}

// PBKDF2-SHA256 of "secret" with salt bytes "saltsalt", 1000 rounds, 32 bytes.
const STORED_1000: &str =
    "$pbkdf2-sha256$i=1000,l=32$c2FsdHNhbHQ$hgR9HsqtKupWxpnv8y99TrPDajTT/9PcSTlNafpdLXQ";

#[test]
fn check_password_against_stored_hash() {
    assert_eq!(check_password(STORED_1000, "secret"), Some(true));
    assert_eq!(check_password(STORED_1000, "Secret"), Some(false));
    assert_eq!(check_password("not a hash", "secret"), None);
}

#[test]
fn signed_up_password_logs_in() {
    let form = FormNewUser {
        email: "s@u.p".to_string(),
        username: "sup".to_string(),
        password: "pa55word".to_string(),
    };
    let u = new_user(&form).unwrap();
    assert_eq!((u.email.as_str(), u.username.as_str()), ("s@u.p", "sup"));
    assert!(u.status.is_empty());
    assert!(u.password_hash.starts_with("$pbkdf2-sha256$"));
    assert_eq!(check_password(&u.password_hash, "pa55word"), Some(true));
    assert_eq!(check_password(&u.password_hash, "password"), Some(false));
}

#[test]
fn hashing_with_bad_salt_fails() {
    let form = FormNewUser {
        email: "s@u.p".to_string(),
        username: "sup".to_string(),
        password: "pa55word".to_string(),
    };
    match new_user_with_salt(&form, "!!") {
        Err(m) => assert!(m.starts_with("Error pass..!")),
        Ok(_) => panic!("expected a hashing error"),
    }
    assert!(hash_password_with("x", "ab").is_err());
}
