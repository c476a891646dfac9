//! Recognising the signed-in user, where a request without a readable
//! `Cookie` field is an error rather than an anonymous visit.

use vstd::prelude::*;
use axum::http::HeaderMap;
use crate::auth::check::{begin_with_text, key_path, visit_tokens, CheckAction, CheckState};
use crate::auth::views::{cookie_text, read_cookie_field};
use crate::headers::{cookie_bytes, has_cookie, to_str_failure, visible_ascii};

verus! {

/// Starts the session check of a request. Without a `Cookie` field the
/// check fails at once with `Err(None)`, and with one that is not text
/// (visible ASCII) with the message of that failure; otherwise it unlocks
/// each `visit` token in turn (see [`CheckState::resume`]) and ends with
/// the identity of the last one, or with the empty identity when there is
/// no `visit` cookie.
pub fn in_check(headers: HeaderMap) -> (r: (CheckState, CheckAction))
    ensures
        !has_cookie(headers) ==> r.1 matches CheckAction::Finish(Err(None)),
        has_cookie(headers) && !visible_ascii(cookie_bytes(headers)) ==> (r.1 matches CheckAction::Finish(
            Err(Some(m)),
        ) && m@ == to_str_failure()),
        has_cookie(headers) && visible_ascii(cookie_bytes(headers)) ==> {
            &&& r.0.wf()
            &&& r.0.path() == key_path(cookie_text(headers))
            &&& r.0.visits() == visit_tokens(cookie_text(headers))
            &&& r.0.opened() == 0
            &&& r.0.token().is_empty_identity()
            &&& r.0.action_for(r.1)
        },
{
    match read_cookie_field(&headers) {
        None => {
            let (state, _) = begin_with_text(&[]);
            (state, CheckAction::Finish(Err(None)))
        },
        Some(None) => {
            let (state, _) = begin_with_text(&[]);
            (state, CheckAction::Finish(Err(Some("failed to convert header to a str".to_owned()))))
        },
        Some(Some(t)) => begin_with_text(t.as_slice()),
    }
}

} // verus!
