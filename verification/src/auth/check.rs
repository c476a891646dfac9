//! Recognising the signed-in user from the session cookies.
//!
//! The `user` and `dialogue` cookies locate the file that holds the user's
//! decryption key, and every `visit` cookie is a token to open with it.
//! Reading the key file and opening the token are work for the caller:
//! [`in_check`] and [`CheckState::resume`] say, step by step, what
//! to unlock next and when the check is over.

use vstd::prelude::*;
use axum::http::HeaderMap;
use crate::auth::models::AuToken;
use crate::auth::views::{cookie_readable, cookie_text, readable_cookie_text, texts_of};
use crate::cookie::{cookie_pieces, concat, values_in, values_named, append_chars, pieces_of};
use crate::headers::has_cookie;
use crate::text::{chars_of, concat_all, string_of, views_of};

verus! {

/// The directory under which user key files are kept.
pub open spec fn key_root() -> Seq<char> {
    "./static/de_key/user/"@
}

/// The key directory named by the `user` cookies: the root followed by
/// their values, or nothing when there is no `user` cookie.
pub open spec fn user_key_dir(pieces: Seq<Seq<char>>) -> Seq<char> {
    let users = values_named(pieces, "user"@);
    if users.len() > 0 {
        key_root() + concat_all(users)
    } else {
        Seq::empty()
    }
}

/// What the `dialogue` cookies add to the key path: for each one in turn,
/// `/`, all dialogue values read so far, and `.der`.
pub open spec fn dialogue_suffix(dialogues: Seq<Seq<char>>) -> Seq<char>
    decreases dialogues.len(),
{
    if dialogues.len() == 0 {
        Seq::empty()
    } else {
        dialogue_suffix(dialogues.drop_last()) + "/"@ + concat_all(dialogues) + ".der"@
    }
}

/// The path of the key file that the session cookies name.
pub open spec fn key_path(text: Seq<char>) -> Seq<char> {
    let pieces = cookie_pieces(text);
    user_key_dir(pieces) + dialogue_suffix(values_named(pieces, "dialogue"@))
}

/// The running concatenations of a list: first, first two, ..., all.
pub open spec fn running_concats(parts: Seq<Seq<char>>) -> Seq<Seq<char>>
    decreases parts.len(),
{
    if parts.len() == 0 {
        Seq::empty()
    } else {
        running_concats(parts.drop_last()).push(concat_all(parts))
    }
}

/// The tokens to open, in order: one per `visit` cookie, each the values of
/// the `visit` cookies read so far.
pub open spec fn visit_tokens(text: Seq<char>) -> Seq<Seq<char>> {
    running_concats(values_named(cookie_pieces(text), "visit"@))
}

/// What to do next in a session check.
pub enum CheckAction {
    /// Read the key file at `path` and open the token `visit` with it, then
    /// hand the result to [`CheckState::resume`].
    Unlock { path: String, visit: String },
    /// The check is over, with this outcome.
    Finish(Result<Option<AuToken>, Option<String>>),
}

/// A session check under way.
pub struct CheckState {
    path: String,
    visits: Vec<String>,
    next: usize,
    token: AuToken,
}

impl CheckState {
    /// The key file path the cookies name.
    pub closed spec fn path(&self) -> Seq<char> {
        self.path@
    }

    /// The tokens to open, in order.
    pub closed spec fn visits(&self) -> Seq<Seq<char>> {
        texts_of(self.visits@)
    }

    /// How many tokens have been opened.
    pub closed spec fn opened(&self) -> nat {
        self.next as nat
    }

    /// The identity of the last token opened (the empty identity before
    /// the first).
    pub closed spec fn token(&self) -> AuToken {
        self.token
    }

    /// The state is consistent: no more tokens opened than there are.
    pub closed spec fn wf(&self) -> bool {
        self.next <= self.visits@.len()
    }

    /// The action that the state calls for: unlock the next token, or
    /// finish with the identity of the last one.
    pub open spec fn action_for(&self, a: CheckAction) -> bool {
        if self.opened() < self.visits().len() {
            a matches CheckAction::Unlock { path, visit } && path@ == self.path() && visit@
                == self.visits()[self.opened() as int]
        } else {
            a matches CheckAction::Finish(Ok(Some(t))) && t@ == self.token()@
        }
    }

    fn advance(&self) -> (r: CheckAction)
        requires
            self.wf(),
        ensures
            self.action_for(r),
    {
        if self.next < self.visits.len() {
            let path = self.path.clone();
            let visit = self.visits[self.next].clone();
            CheckAction::Unlock { path, visit }
        } else {
            CheckAction::Finish(Ok(Some(self.token.clone_token())))
        }
    }

    /// Hands over the result of the last unlock: the identity inside the
    /// token, or the error that stopped reading the key or opening the
    /// token. An error ends the check with that error; an identity becomes
    /// the current one and the check moves on to the next token.
    pub fn resume(&mut self, unlocked: Result<AuToken, Option<String>>) -> (r: CheckAction)
        requires
            old(self).wf(),
            old(self).opened() < old(self).visits().len(),
        ensures
            final(self).wf(),
            final(self).path() == old(self).path(),
            final(self).visits() == old(self).visits(),
            match unlocked {
                Ok(t) => final(self).opened() == old(self).opened() + 1 && final(self).token() == t
                    && final(self).action_for(r),
                Err(e) => r matches CheckAction::Finish(Err(e2)) && e2 == e,
            },
    {
        match unlocked {
            Ok(t) => {
                let count = self.visits.len();
                assert(self.visits().len() == count);
                self.token = t;
                self.next = self.next + 1;
                self.advance()
            },
            Err(e) => CheckAction::Finish(Err(e)),
        }
    }
}

/// The key file path that the cookie header `text` names.
pub fn key_path_of(text: &[char]) -> (r: Vec<char>)
    ensures
        r@ == key_path(text@),
{
    let pieces = pieces_of(text);
    let user_name = chars_of("user");
    let users = values_in(&pieces, user_name.as_slice());
    let mut path: Vec<char> = if users.len() > 0 {
        let mut p = chars_of("./static/de_key/user/");
        let joined = concat(&users);
        append_chars(&mut p, joined.as_slice());
        p
    } else {
        Vec::new()
    };
    let dialogue_name = chars_of("dialogue");
    let dialogues = values_in(&pieces, dialogue_name.as_slice());
    let slash = chars_of("/");
    let der = chars_of(".der");
    let ghost dir = path@;
    let mut acc: Vec<char> = Vec::new();
    let mut i: usize = 0;
    assert(views_of(dialogues@).take(0) =~= Seq::<Seq<char>>::empty());
    while i < dialogues.len()
        invariant
            i <= dialogues@.len(),
            slash@ == "/"@,
            der@ == ".der"@,
            acc@ == concat_all(views_of(dialogues@).take(i as int)),
            path@ == dir + dialogue_suffix(views_of(dialogues@).take(i as int)),
        decreases dialogues@.len() - i,
    {
        let ghost ds = views_of(dialogues@).take(i + 1);
        assert(ds.drop_last() =~= views_of(dialogues@).take(i as int));
        assert(ds.last() == dialogues@[i as int]@);
        append_chars(&mut acc, dialogues[i].as_slice());
        append_chars(&mut path, slash.as_slice());
        append_chars(&mut path, acc.as_slice());
        append_chars(&mut path, der.as_slice());
        i = i + 1;
        assert(path@ =~= dir + dialogue_suffix(views_of(dialogues@).take(i as int)));
    }
    assert(views_of(dialogues@).take(dialogues@.len() as int) =~= views_of(dialogues@));
    path
}

/// The tokens that the cookie header `text` holds, in the order they are
/// tried.
pub fn visit_tokens_of(text: &[char]) -> (r: Vec<String>)
    ensures
        texts_of(r@) == visit_tokens(text@),
{
    let pieces = pieces_of(text);
    let visit_name = chars_of("visit");
    let visits = values_in(&pieces, visit_name.as_slice());
    let mut acc: Vec<char> = Vec::new();
    let mut r: Vec<String> = Vec::new();
    let mut i: usize = 0;
    assert(views_of(visits@).take(0) =~= Seq::<Seq<char>>::empty());
    while i < visits.len()
        invariant
            i <= visits@.len(),
            acc@ == concat_all(views_of(visits@).take(i as int)),
            texts_of(r@) == running_concats(views_of(visits@).take(i as int)),
        decreases visits@.len() - i,
    {
        let ghost vs = views_of(visits@).take(i + 1);
        assert(vs.drop_last() =~= views_of(visits@).take(i as int));
        assert(vs.last() == visits@[i as int]@);
        append_chars(&mut acc, visits[i].as_slice());
        let s = string_of(acc.as_slice());
        let ghost before = r@;
        r.push(s);
        assert(texts_of(r@) =~= texts_of(before).push(s@));
        i = i + 1;
    }
    assert(views_of(visits@).take(visits@.len() as int) =~= views_of(visits@));
    r
}

/// The check for a readable cookie header `text`.
pub(crate) fn begin_with_text(text: &[char]) -> (r: (CheckState, CheckAction))
    ensures
        r.0.wf(),
        r.0.path() == key_path(text@),
        r.0.visits() == visit_tokens(text@),
        r.0.opened() == 0,
        r.0.token().is_empty_identity(),
        r.0.action_for(r.1),
{
    let path = key_path_of(text);
    let visits = visit_tokens_of(text);
    let state = CheckState {
        path: string_of(path.as_slice()),
        visits,
        next: 0,
        token: AuToken::default(),
    };
    let action = state.advance();
    (state, action)
}

/// Starts the session check of a request. Without a `Cookie` field the
/// check is over at once with `Ok(None)`; otherwise it first unlocks each
/// `visit` token in turn and then ends with the identity of the last one,
/// or with the empty identity when there is no `visit` cookie.
pub fn in_check(headers: HeaderMap) -> (r: (CheckState, CheckAction))
    requires
        cookie_readable(headers),
    ensures
        !has_cookie(headers) ==> r.1 matches CheckAction::Finish(Ok(None)),
        has_cookie(headers) ==> {
            &&& r.0.wf()
            &&& r.0.path() == key_path(cookie_text(headers))
            &&& r.0.visits() == visit_tokens(cookie_text(headers))
            &&& r.0.opened() == 0
            &&& r.0.token().is_empty_identity()
            &&& r.0.action_for(r.1)
        },
{
    match readable_cookie_text(&headers) {
        None => {
            let (state, _) = begin_with_text(&[]);
            (state, CheckAction::Finish(Ok(None)))
        },
        Some(t) => begin_with_text(t.as_slice()),
    }
}

/// The session of a request as the page context sees it: a failed check
/// counts as no session.
pub fn session_context(checked: Result<Option<AuToken>, Option<String>>) -> (r: Result<
    Option<AuToken>,
    Option<String>,
>)
    ensures
        match checked {
            Ok(t) => r == Ok::<Option<AuToken>, Option<String>>(t),
            Err(_) => r == Ok::<Option<AuToken>, Option<String>>(None),
        },
{
    match checked {
        Ok(t) => Ok(t),
        Err(_) => Ok(None),
    }
}

} // verus!
