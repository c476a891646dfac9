//! The decisions of the account handlers: logging in, signing up and
//! changing one's profile. The handlers query the database, keep key files
//! and render pages; what they decide, and the texts they send, are here.

use vstd::prelude::*;
use crate::auth::check::key_root;
use crate::auth::models::{AuToken, FormNewUser, FormUpdateUser, VeriUser, status_texts};
use crate::auth::password::{generate_salt, is_b64_char, hash_password_with, password_bytes, pbkdf2_accepts, pbkdf2_hash};
use crate::cookie::cookie_pair;
use rand::distr::{Alphanumeric, SampleString};

verus! {

/// How long a session token is valid, in hours.
pub const SESSION_HOURS: u64 = 2;

/// The text of a `Set-Cookie` header for cookie `name`.
pub open spec fn set_cookie_text(name: Seq<char>, value: Seq<char>) -> Seq<char> {
    cookie_pair(name, value) + "; Path=/; HttpOnly=true; SameSite=lax"@
}

/// The `Set-Cookie` header that stores cookie `name` with `value` for the
/// whole site, out of reach of scripts, and sent on top-level navigation.
pub fn set_cookie(name: &str, value: &str) -> (r: String)
    ensures
        r@ == set_cookie_text(name@, value@),
{
    let mut s = name.to_owned();
    s.append("=");
    s.append(value);
    s.append("; Path=/; HttpOnly=true; SameSite=lax");
    proof {
        reveal_strlit("=");
    }
    assert(s@ =~= set_cookie_text(name@, value@));
    s
}

/// The directory holding the key files of the user with this email.
pub open spec fn key_dir_text(email: Seq<char>) -> Seq<char> {
    key_root() + email
}

/// The key file of a login of the user with this email, named by the
/// login's dialogue.
pub open spec fn key_file_text(email: Seq<char>, dialogue: Seq<char>) -> Seq<char> {
    key_dir_text(email) + "/"@ + dialogue + ".der"@
}

/// The Set-Cookie text stores the whole value: it is the name, `=`, the
/// value character for character, then the attributes, whatever the value
/// holds (dots included).
pub proof fn law_set_cookie_holds_value(name: Seq<char>, value: Seq<char>)
    ensures
        set_cookie_text(name, value).len() == name.len() + 1 + value.len()
            + "; Path=/; HttpOnly=true; SameSite=lax"@.len(),
        set_cookie_text(name, value).subrange(0, name.len() as int) == name,
        set_cookie_text(name, value)[name.len() as int] == '=',
        set_cookie_text(name, value).subrange((name.len() + 1) as int, (name.len() + 1 + value.len()) as int) == value,
        set_cookie_text(name, value).skip((name.len() + 1 + value.len()) as int)
            == "; Path=/; HttpOnly=true; SameSite=lax"@,
{
    let t = set_cookie_text(name, value);
    assert(t.subrange(0, name.len() as int) =~= name);
    assert(t.subrange((name.len() + 1) as int, (name.len() + 1 + value.len()) as int) =~= value);
    assert(t.skip((name.len() + 1 + value.len()) as int) =~= "; Path=/; HttpOnly=true; SameSite=lax"@);
}

/// The key directory holds the whole email and the key file lies in it:
/// the directory is the key root followed by the email, character for
/// character; the file is the directory, `/`, the dialogue and `.der`; and
/// distinct emails have distinct directories.
pub proof fn law_key_file_in_key_dir(email: Seq<char>, other: Seq<char>, dialogue: Seq<char>)
    ensures
        key_dir_text(email).len() == "./static/de_key/user/"@.len() + email.len(),
        key_dir_text(email).subrange(0, "./static/de_key/user/"@.len() as int)
            == "./static/de_key/user/"@,
        key_dir_text(email).skip("./static/de_key/user/"@.len() as int) == email,
        key_file_text(email, dialogue) == key_dir_text(email) + seq!['/'] + dialogue + ".der"@,
        email != other ==> key_dir_text(email) != key_dir_text(other),
{
    reveal_strlit("/");
    let root = "./static/de_key/user/"@;
    assert(key_dir_text(email).subrange(0, root.len() as int) =~= root);
    assert(key_dir_text(email).skip(root.len() as int) =~= email);
    assert(key_dir_text(other).skip(root.len() as int) =~= other);
    assert("/"@ =~= seq!['/']);
    assert(key_file_text(email, dialogue) =~= key_dir_text(email) + seq!['/'] + dialogue + ".der"@);
}

/// The directory holding the key files of the user with this email.
pub fn key_dir(email: &str) -> (r: String)
    ensures
        r@ == key_dir_text(email@),
{
    let mut s = "./static/de_key/user/".to_owned();
    s.append(email);
    s
}

/// The key file of a login of the user with this email.
pub fn key_file(email: &str, dialogue: &str) -> (r: String)
    ensures
        r@ == key_file_text(email@, dialogue@),
{
    let mut s = key_dir(email);
    s.append("/");
    s.append(dialogue);
    s.append(".der");
    s
}

/// A character a dialogue name is made of: an ASCII letter or digit.
pub open spec fn is_alphanumeric(c: char) -> bool {
    ('a' <= c && c <= 'z') || ('A' <= c && c <= 'Z') || ('0' <= c && c <= '9')
}

/// Calls `Alphanumeric.sample_string` from `rand` with the thread-local
/// generator for 12 characters. The source samples each character from
/// `A`-`Z`, `a`-`z` and `0`-`9`; which ones is left to chance.
#[verifier::external_body]
fn sample_dialogue() -> (r: String)
    ensures
        r@.len() == 12,
        forall|i: int| 0 <= i < r@.len() ==> is_alphanumeric(#[trigger] r@[i]),
{
    Alphanumeric.sample_string(&mut rand::rng(), 12)
}

/// Where a login keeps its decryption key: a random dialogue name, the
/// user's key directory and the key file in it.
pub struct LoginKeys {
    pub dialogue: String,
    pub dir: String,
    pub file: String,
}

/// The key location of a login of the user with this email, named by
/// `dialogue`.
pub fn login_keys_with(email: &str, dialogue: String) -> (r: LoginKeys)
    ensures
        r.dialogue@ == dialogue@,
        r.dir@ == key_dir_text(email@),
        r.file@ == key_file_text(email@, dialogue@),
        r.file@ == r.dir@ + "/"@ + r.dialogue@ + ".der"@,
{
    let dir = key_dir(email);
    let file = key_file(email, dialogue.as_str());
    LoginKeys { dialogue, dir, file }
}

/// The key location of a new login of the user with this email, under a
/// fresh random dialogue name of 12 ASCII letters and digits.
pub fn login_keys(email: &str) -> (r: LoginKeys)
    ensures
        r.dialogue@.len() == 12,
        forall|i: int| 0 <= i < r.dialogue@.len() ==> is_alphanumeric(#[trigger] r.dialogue@[i]),
        r.dir@ == key_dir_text(email@),
        r.file@ == key_file_text(email@, r.dialogue@),
        r.file@ == r.dir@ + "/"@ + r.dialogue@ + ".der"@,
{
    let dialogue = sample_dialogue();
    login_keys_with(email, dialogue)
}

/// The stages of a login.
#[derive(PartialEq, Eq, Structural)]
pub enum LoginStage {
    /// The email must be looked up.
    Email,
    /// The stored password hash must be checked.
    Password,
    /// The user's profile must be read.
    Profile,
    /// The login is decided.
    Over,
}

/// What the handler learnt since the last step.
pub enum LoginEvent {
    /// Whether a user with the submitted email exists.
    EmailLookup(bool),
    /// Whether the submitted password matches the stored hash.
    PasswordVerdict(bool),
    /// The user's profile row, if it was found.
    ProfileRow(Option<VeriUser>),
}

/// Why a login is refused.
#[derive(PartialEq, Eq, Structural)]
pub enum LoginRefusal {
    UnknownEmail,
    WrongPassword,
    NoProfile,
}

/// What the handler does next.
pub enum LoginAction {
    /// Read the stored password hash and check the password against it.
    CheckPassword,
    /// Read the user's profile.
    FetchProfile,
    /// Refuse the login.
    Refuse(LoginRefusal),
    /// Start a session for this identity.
    Grant(AuToken),
}

/// The event is one the stage waits for.
pub open spec fn login_event_fits(stage: LoginStage, event: LoginEvent) -> bool {
    match stage {
        LoginStage::Email => event is EmailLookup,
        LoginStage::Password => event is PasswordVerdict,
        LoginStage::Profile => event is ProfileRow,
        LoginStage::Over => false,
    }
}

/// The stage a login reaches from `stage` on `event`.
pub open spec fn login_next(stage: LoginStage, event: LoginEvent) -> LoginStage {
    match event {
        LoginEvent::EmailLookup(found) => if found {
            LoginStage::Password
        } else {
            LoginStage::Over
        },
        LoginEvent::PasswordVerdict(ok) => if ok {
            LoginStage::Profile
        } else {
            LoginStage::Over
        },
        LoginEvent::ProfileRow(_) => LoginStage::Over,
    }
}

/// The stage a login reaches on a run of events, starting from the email.
pub open spec fn login_run(events: Seq<LoginEvent>) -> LoginStage
    decreases events.len(),
{
    if events.len() == 0 {
        LoginStage::Email
    } else {
        login_next(login_run(events.drop_last()), events.last())
    }
}

/// Every event of the run is one its stage waits for.
pub open spec fn login_run_fits(events: Seq<LoginEvent>) -> bool {
    forall|i: int|
        0 <= i < events.len() ==> login_event_fits(login_run(events.take(i)), #[trigger] events[i])
}

/// A login reaches the profile, the only stage at which it can be granted,
/// in one way only: the email was found and then the password was accepted.
pub proof fn law_profile_needs_password(events: Seq<LoginEvent>)
    requires
        login_run_fits(events),
    ensures
        login_run(events) == LoginStage::Profile ==> events == seq![
            LoginEvent::EmailLookup(true),
            LoginEvent::PasswordVerdict(true),
        ],
        login_run(events) == LoginStage::Password ==> events == seq![LoginEvent::EmailLookup(true)],
    decreases events.len(),
{
    if events.len() > 0 {
        let init = events.drop_last();
        assert forall|i: int| 0 <= i < init.len() implies login_event_fits(
            login_run(init.take(i)),
            #[trigger] init[i],
        ) by {
            assert(init.take(i) =~= events.take(i));
            assert(init[i] == events[i]);
        }
        law_profile_needs_password(init);
        let k = events.len() - 1;
        assert(events.take(k) =~= init);
        assert(login_event_fits(login_run(init), events[k]));
        if init.len() == 0 {
            assert(login_run(init) == LoginStage::Email);
        }
        if login_run(events) == LoginStage::Profile {
            assert(events =~= init.push(events.last()));
        }
        if login_run(events) == LoginStage::Password {
            assert(events =~= init.push(events.last()));
            assert(init =~= Seq::<LoginEvent>::empty());
        }
    }
}

/// The identity a profile row stands for.
pub open spec fn identity_of(row: VeriUser) -> (i32, Seq<char>, Seq<char>, Seq<Seq<char>>) {
    (row.id, row.email@, row.username@, status_texts(row.status@))
}

/// One step of a login: an unknown email or a wrong password refuses it,
/// and so does a missing profile; otherwise it goes on from the email to
/// the password to the profile, whose identity the session is granted for.
pub fn login_step(stage: LoginStage, event: LoginEvent) -> (r: (LoginStage, LoginAction))
    requires
        login_event_fits(stage, event),
    ensures
        r.0 == login_next(stage, event),
        match event {
            LoginEvent::EmailLookup(found) => if found {
                r.0 == LoginStage::Password && r.1 is CheckPassword
            } else {
                r.0 == LoginStage::Over && r.1 == LoginAction::Refuse(LoginRefusal::UnknownEmail)
            },
            LoginEvent::PasswordVerdict(ok) => if ok {
                r.0 == LoginStage::Profile && r.1 is FetchProfile
            } else {
                r.0 == LoginStage::Over && r.1 == LoginAction::Refuse(LoginRefusal::WrongPassword)
            },
            LoginEvent::ProfileRow(row) => r.0 == LoginStage::Over && match row {
                Some(u) => r.1 matches LoginAction::Grant(t) && t@ == identity_of(u),
                None => r.1 == LoginAction::Refuse(LoginRefusal::NoProfile),
            },
        },
{
    match event {
        LoginEvent::EmailLookup(found) => if found {
            (LoginStage::Password, LoginAction::CheckPassword)
        } else {
            (LoginStage::Over, LoginAction::Refuse(LoginRefusal::UnknownEmail))
        },
        LoginEvent::PasswordVerdict(ok) => if ok {
            (LoginStage::Profile, LoginAction::FetchProfile)
        } else {
            (LoginStage::Over, LoginAction::Refuse(LoginRefusal::WrongPassword))
        },
        LoginEvent::ProfileRow(row) => match row {
            Some(u) => {
                let t = AuToken { id: u.id, email: u.email, username: u.username, status: u.status };
                (LoginStage::Over, LoginAction::Grant(t))
            },
            None => (LoginStage::Over, LoginAction::Refuse(LoginRefusal::NoProfile)),
        },
    }
}

/// A note for a page: the name it is shown under and its text.
pub struct Notice {
    pub key: String,
    pub text: String,
}

/// The note the login page shows for a refusal: a missing profile shows
/// none.
pub fn refusal_notice(refusal: &LoginRefusal) -> (r: Option<Notice>)
    ensures
        match refusal {
            LoginRefusal::UnknownEmail => r matches Some(n) && n.key@ == "for_email"@ && n.text@
                == "this email is not available..!"@,
            LoginRefusal::WrongPassword => r matches Some(n) && n.key@ == "for_password"@
                && n.text@ == "password is not correct..!"@,
            LoginRefusal::NoProfile => r is None,
        },
{
    match refusal {
        LoginRefusal::UnknownEmail => Some(
            Notice {
                key: "for_email".to_owned(),
                text: "this email is not available..!".to_owned(),
            },
        ),
        LoginRefusal::WrongPassword => Some(
            Notice { key: "for_password".to_owned(), text: "password is not correct..!".to_owned() },
        ),
        LoginRefusal::NoProfile => None,
    }
}

/// Where a granted login sends the browser.
pub fn login_destination() -> (r: String)
    ensures
        r@ == "/account/users"@,
{
    "/account/users".to_owned()
}

/// The cookie a granted login sets: the session token as `visit`.
pub fn login_cookies(token: &str) -> (r: Vec<String>)
    ensures
        r@.len() == 1,
        r@[0]@ == set_cookie_text("visit"@, token@),
{
    let mut v: Vec<String> = Vec::new();
    v.push(set_cookie("visit", token));
    v
}

/// A new user as signing up stores it.
pub struct NewUser {
    pub email: String,
    pub username: String,
    pub password_hash: String,
    pub status: Vec<String>,
}

/// The outcome of a sign-up whose password is hashed with `salt`: the user
/// with the form's email and name, the hash and an empty status list, or,
/// when hashing fails, the page text `Error pass..!` and the error.
pub open spec fn signup_outcome(form: FormNewUser, salt: Seq<char>, r: Result<NewUser, String>) -> bool {
    match pbkdf2_hash(password_bytes(form.password@), salt) {
        Ok(h) => r matches Ok(u) && u.email@ == form.email@ && u.username@ == form.username@
            && u.password_hash@ == h && u.status@.len() == 0,
        Err(e) => r matches Err(m) && m@ == "Error pass..!"@ + e,
    }
}

/// The user to store for a sign-up whose password is hashed with `salt`,
/// or the page text when hashing fails. The stored hash accepts the
/// password signed up with.
pub fn new_user_with_salt(form: &FormNewUser, salt: &str) -> (r: Result<NewUser, String>)
    ensures
        signup_outcome(*form, salt@, r),
        r matches Ok(u) ==> pbkdf2_accepts(password_bytes(form.password@), u.password_hash@) == Some(true),
{
    match hash_password_with(form.password.as_str(), salt) {
        Ok(h) => Ok(
            NewUser {
                email: form.email.clone(),
                username: form.username.clone(),
                password_hash: h,
                status: Vec::new(),
            },
        ),
        Err(e) => {
            let mut m = "Error pass..!".to_owned();
            m.append(e.as_str());
            Err(m)
        },
    }
}

/// The user to store for a sign-up, its password hashed with a fresh
/// random salt of 22 B64 characters: the outcome of hashing with the salt
/// that was drawn, which always succeeds. The stored hash accepts the password signed up with,
/// and the email, the user name and an empty status list are kept.
pub fn new_user(form: &FormNewUser) -> (r: Result<NewUser, String>)
    ensures
        r is Ok,
        exists|salt: Seq<char>|
            #![trigger signup_outcome(*form, salt, r)]
            salt.len() == 22 && (forall|i: int| 0 <= i < salt.len() ==> is_b64_char(#[trigger] salt[i]))
                && signup_outcome(*form, salt, r),
        r matches Ok(u) ==> {
            &&& u.email@ == form.email@
            &&& u.username@ == form.username@
            &&& u.status@.len() == 0
            &&& pbkdf2_accepts(password_bytes(form.password@), u.password_hash@) == Some(true)
        },
{
    let salt = generate_salt();
    let r = new_user_with_salt(form, salt.as_str());
    assert(signup_outcome(*form, salt@, r));
    r
}

/// Where signing up sends the browser.
pub fn signup_destination() -> (r: String)
    ensures
        r@ == "/account/users"@,
{
    "/account/users".to_owned()
}

/// A profile change to write: the user's id and the new email and name.
pub struct ProfileUpdate {
    pub id: i32,
    pub email: String,
    pub username: String,
}

/// The change a profile form asks for, when someone is signed in.
pub fn profile_update(session: Option<AuToken>, form: FormUpdateUser) -> (r: Option<ProfileUpdate>)
    ensures
        match session {
            None => r is None,
            Some(t) => r matches Some(u) && u.id == t.id && u.email@ == form.email@ && u.username@
                == form.username@,
        },
{
    match session {
        None => None,
        Some(t) => Some(ProfileUpdate { id: t.id, email: form.email, username: form.username }),
    }
}

/// Where the browser goes after a profile change: back to the login page.
pub fn update_destination() -> (r: String)
    ensures
        r@ == "/account/login"@,
{
    "/account/login".to_owned()
}

/// The cookie a profile change sets: the session token is replaced by
/// `_`, which ends the session.
pub fn session_end_cookie() -> (r: String)
    ensures
        r@ == set_cookie_text("visit"@, "_"@),
{
    set_cookie("visit", "_")
}

/// The note the update page shows when nobody is signed in.
pub fn no_session_notice() -> (r: Notice)
    ensures
        r.key@ == "err"@,
        r.text@ == "None AuToken..!"@,
{
    Notice { key: "err".to_owned(), text: "None AuToken..!".to_owned() }
}

} // verus!
