//! The account decisions of the `sqlx` variant: a login also stores the
//! key location in cookies, and a sign-up is refused when the email or the
//! user name is taken.

use vstd::prelude::*;
use crate::auth::accreditation::{
    is_alphanumeric, key_file_text, set_cookie, set_cookie_text, Notice,
};
use crate::auth::check::{key_path, key_root, running_concats, user_key_dir, dialogue_suffix, visit_tokens};
use crate::cookie::{cookie_header, law_cookie_values, plain_cookies, plain_token, values_given, cookie_pieces, values_named};
use crate::text::{concat_all, lemma_concat_one};

verus! {

/// The cookies a granted login sets: the session token as `visit`, the
/// key file's dialogue name as `dialogue` and the email as `user`.
pub fn login_cookies(token: &str, dialogue: &str, email: &str) -> (r: Vec<String>)
    ensures
        r@.len() == 3,
        r@[0]@ == set_cookie_text("visit"@, token@),
        r@[1]@ == set_cookie_text("dialogue"@, dialogue@),
        r@[2]@ == set_cookie_text("user"@, email@),
{
    let mut v: Vec<String> = Vec::new();
    v.push(set_cookie("visit", token));
    v.push(set_cookie("dialogue", dialogue));
    v.push(set_cookie("user", email));
    v
}

/// The cookies of a login, as the browser sends them back.
pub open spec fn login_cookie_list(token: Seq<char>, dialogue: Seq<char>, email: Seq<char>) -> Seq<
    (Seq<char>, Seq<char>),
> {
    seq![("visit"@, token), ("dialogue"@, dialogue), ("user"@, email)]
}

/// A login's cookies lead the session check back to the login's key: when
/// the browser returns the `visit`, `dialogue` and `user` cookies that a
/// login set, the check reads the key file that the login wrote, and opens
/// the login's token with it, once. (The token and the email must hold no
/// `;` and no `=`; a dialogue name never does.)
pub proof fn law_login_cookies_locate_key(token: Seq<char>, dialogue: Seq<char>, email: Seq<char>)
    requires
        plain_token(token),
        plain_token(email),
        forall|i: int| 0 <= i < dialogue.len() ==> is_alphanumeric(#[trigger] dialogue[i]),
    ensures
        key_path(cookie_header(login_cookie_list(token, dialogue, email))) == key_file_text(
            email,
            dialogue,
        ),
        visit_tokens(cookie_header(login_cookie_list(token, dialogue, email))) == seq![token],
{
    reveal_strlit("visit");
    reveal_strlit("dialogue");
    reveal_strlit("user");
    let cookies = login_cookie_list(token, dialogue, email);
    assert(plain_token(dialogue)) by {
        assert forall|i: int| 0 <= i < dialogue.len() implies dialogue[i] != ';' && dialogue[i]
            != '=' by {
            assert(is_alphanumeric(dialogue[i]));
        }
    }
    assert(plain_token("visit"@));
    assert(plain_token("dialogue"@));
    assert(plain_token("user"@));
    assert(plain_cookies(cookies)) by {
        assert forall|i: int| 0 <= i < cookies.len() implies plain_token(#[trigger] cookies[i].0)
            && plain_token(cookies[i].1) by {
            if i == 0 {
            } else if i == 1 {
            } else {
            }
        }
    }
    let header = cookie_header(cookies);
    let pieces = cookie_pieces(header);
    law_cookie_values(cookies, "user"@);
    law_cookie_values(cookies, "dialogue"@);
    law_cookie_values(cookies, "visit"@);
    let c2 = cookies.drop_last();
    let c1 = c2.drop_last();
    let c0 = c1.drop_last();
    assert(c2 =~= seq![("visit"@, token), ("dialogue"@, dialogue)]);
    assert(c1 =~= seq![("visit"@, token)]);
    assert(c0 =~= Seq::<(Seq<char>, Seq<char>)>::empty());
    assert("visit"@ != "dialogue"@ && "visit"@ != "user"@ && "dialogue"@ != "user"@) by {
        assert("visit"@.len() != "dialogue"@.len());
        assert("visit"@.len() != "user"@.len());
        assert("dialogue"@.len() != "user"@.len());
    }
    assert(values_given(c0, "user"@) == Seq::<Seq<char>>::empty());
    assert(values_given(c0, "dialogue"@) == Seq::<Seq<char>>::empty());
    assert(values_given(c0, "visit"@) == Seq::<Seq<char>>::empty());
    assert(c1.last().0 == "visit"@ && c2.last().0 == "dialogue"@ && cookies.last().0 == "user"@);
    assert(values_given(c1, "user"@) == Seq::<Seq<char>>::empty());
    assert(values_given(c2, "user"@) == Seq::<Seq<char>>::empty());
    assert(values_given(c1, "dialogue"@) == Seq::<Seq<char>>::empty());
    assert(values_given(c2, "dialogue"@) =~= seq![dialogue]);
    assert(values_given(c1, "visit"@) =~= seq![token]);
    assert(values_given(c2, "visit"@) =~= seq![token]);
    assert(values_given(cookies, "user"@) =~= seq![email]);
    assert(values_given(cookies, "dialogue"@) =~= seq![dialogue]);
    assert(values_given(cookies, "visit"@) =~= seq![token]);
    lemma_concat_one(email);
    lemma_concat_one(dialogue);
    lemma_concat_one(token);
    assert(user_key_dir(pieces) =~= key_root() + email);
    let ds = seq![dialogue];
    assert(ds.drop_last() =~= Seq::<Seq<char>>::empty());
    assert(dialogue_suffix(ds.drop_last()) =~= Seq::<char>::empty());
    assert(dialogue_suffix(ds) =~= "/"@ + dialogue + ".der"@);
    assert(key_path(header) =~= key_file_text(email, dialogue));
    let ts = seq![token];
    assert(ts.drop_last() =~= Seq::<Seq<char>>::empty());
    assert(running_concats(ts.drop_last()) =~= Seq::<Seq<char>>::empty());
    assert(running_concats(ts) =~= seq![token]);
}

/// The stages of a sign-up.
#[derive(PartialEq, Eq, Structural)]
pub enum SignupStage {
    /// The email must be looked up.
    Email,
    /// The user name must be looked up.
    Username,
    /// The sign-up is decided.
    Over,
}

/// What a sign-up does next.
pub enum SignupAction {
    /// Look up the user name.
    CheckUsername,
    /// Refuse the sign-up with this note on the sign-up page.
    Refuse(Notice),
    /// Hash the password and store the user.
    Store,
}

/// One step of a sign-up, given whether the lookup of the current stage
/// found the value free (the lookup succeeded and found nobody): a taken
/// email, or a taken user name, refuses the sign-up.
pub fn signup_step(stage: SignupStage, free: bool) -> (r: (SignupStage, SignupAction))
    requires
        stage != SignupStage::Over,
    ensures
        r.0 == (if stage == SignupStage::Email && free { SignupStage::Username } else { SignupStage::Over }),
        stage == SignupStage::Email && free ==> r.1 is CheckUsername,
        stage == SignupStage::Email && !free ==> (r.1 matches SignupAction::Refuse(n) && n.key@ == "err"@
            && n.text@ == "email already exists.."@),
        stage == SignupStage::Username && free ==> r.1 is Store,
        stage == SignupStage::Username && !free ==> (r.1 matches SignupAction::Refuse(n) && n.key@
            == "err"@ && n.text@ == "username already exists.."@),
{
    match stage {
        SignupStage::Email => if free {
            (SignupStage::Username, SignupAction::CheckUsername)
        } else {
            (
                SignupStage::Over,
                SignupAction::Refuse(
                    Notice { key: "err".to_owned(), text: "email already exists..".to_owned() },
                ),
            )
        },
        _ => if free {
            (SignupStage::Over, SignupAction::Store)
        } else {
            (
                SignupStage::Over,
                SignupAction::Refuse(
                    Notice { key: "err".to_owned(), text: "username already exists..".to_owned() },
                ),
            )
        },
    }
}

} // verus!
