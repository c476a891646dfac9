//! Reading the `Cookie` header of a request.

use vstd::prelude::*;
use axum::http::{HeaderMap, HeaderValue};
use crate::cookie::{cookie_header, cookie_value, law_single_cookie_reads_back, plain_cookies, value_in};
use crate::headers::{
    ascii_text, cookie_bytes, get_cookie_field, has_cookie, header_fields, header_text, to_str_failure,
    value_as_bytes, value_bytes, visible_ascii,
};
use crate::text::{chars_of, split_chars, split_on, string_of, views_of};

verus! {

/// The text of the request's first `Cookie` value.
pub open spec fn cookie_text(headers: HeaderMap) -> Seq<char> {
    ascii_text(cookie_bytes(headers))
}

/// The `Cookie` value, when there is one, is text (visible ASCII), so that
/// reading it does not fail.
pub open spec fn cookie_readable(headers: HeaderMap) -> bool {
    has_cookie(headers) ==> visible_ascii(cookie_bytes(headers))
}

/// The value of cookie `name` in the request (empty when the request has no
/// `Cookie` field or no cookie of that name).
pub open spec fn request_cookie(name: Seq<char>, headers: HeaderMap) -> Seq<char> {
    if has_cookie(headers) {
        cookie_value(name, cookie_text(headers))
    } else {
        Seq::empty()
    }
}

/// The text the cookie readers work on is the whole first `Cookie` value:
/// one character per byte, equal to it, however long the value is.
pub proof fn law_cookie_text_is_whole_field(headers: HeaderMap)
    requires
        has_cookie(headers),
    ensures
        cookie_text(headers).len() == header_fields(headers)["cookie"@][0].len(),
        forall|i: int|
            0 <= i < cookie_text(headers).len() ==> #[trigger] cookie_text(headers)[i]
                == header_fields(headers)["cookie"@][0][i] as char,
{
}

/// The value read for a named cookie is the cookie's value in the whole
/// header, wherever the cookie stands: when the request sends the cookies
/// `cookies` (names and values free of `;` and `=`) and `name` is given
/// once among them, its value reads back exactly.
pub proof fn law_request_cookie_reads_back(
    headers: HeaderMap,
    cookies: Seq<(Seq<char>, Seq<char>)>,
    i: int,
)
    requires
        has_cookie(headers),
        header_fields(headers)["cookie"@][0].len() == cookie_header(cookies).len(),
        forall|j: int|
            0 <= j < cookie_header(cookies).len() ==> header_fields(headers)["cookie"@][0][j] as char
                == #[trigger] cookie_header(cookies)[j],
        plain_cookies(cookies),
        0 <= i < cookies.len(),
        forall|j: int| 0 <= j < cookies.len() && j != i ==> cookies[j].0 != cookies[i].0,
    ensures
        request_cookie(cookies[i].0, headers) == cookies[i].1,
{
    law_cookie_text_is_whole_field(headers);
    assert(cookie_text(headers) =~= cookie_header(cookies));
    law_single_cookie_reads_back(cookies, i);
}

/// A list of strings as character sequences.
pub open spec fn texts_of(v: Seq<String>) -> Seq<Seq<char>> {
    v.map_values(|s: String| s@)
}

/// The request's `Cookie` field: absent, present but not text, or its text.
pub(crate) fn read_cookie_field(headers: &HeaderMap) -> (r: Option<Option<Vec<char>>>)
    ensures
        match r {
            None => !has_cookie(*headers),
            Some(None) => has_cookie(*headers) && !visible_ascii(cookie_bytes(*headers)),
            Some(Some(t)) => has_cookie(*headers) && visible_ascii(cookie_bytes(*headers))
                && t@ == cookie_text(*headers),
        },
{
    match get_cookie_field(headers) {
        None => None,
        Some(v) => {
            let bytes = value_as_bytes(&v);
            Some(header_text(bytes.as_slice()))
        },
    }
}

/// The request's text for the `Cookie` field, known to be readable.
pub(crate) fn readable_cookie_text(headers: &HeaderMap) -> (r: Option<Vec<char>>)
    requires
        cookie_readable(*headers),
    ensures
        match r {
            None => !has_cookie(*headers),
            Some(t) => has_cookie(*headers) && t@ == cookie_text(*headers),
        },
{
    match read_cookie_field(headers) {
        None => None,
        Some(Some(t)) => Some(t),
        Some(None) => {
            assert(false);
            None
        },
    }
}

/// The value of cookie `name` in the request, with `""` when the request
/// has no `Cookie` field.
pub(crate) fn request_cookie_chars(name: &[char], headers: &HeaderMap) -> (r: Vec<char>)
    requires
        cookie_readable(*headers),
    ensures
        r@ == request_cookie(name@, *headers),
{
    match readable_cookie_text(headers) {
        None => Vec::new(),
        Some(t) => value_in(name, t.as_slice()),
    }
}

/// Whether the request's `Cookie` field, if any, is text (visible ASCII),
/// so that the cookie readers can be called on it.
pub fn is_readable(headers: &HeaderMap) -> (r: bool)
    ensures
        r == cookie_readable(*headers),
{
    match read_cookie_field(headers) {
        Some(None) => false,
        _ => true,
    }
}

/// The request's first `Cookie` value, if it has one.
pub fn some_headers(headers: HeaderMap) -> (r: Option<HeaderValue>)
    ensures
        r is Some <==> has_cookie(headers),
        r matches Some(v) ==> value_bytes(v) == cookie_bytes(headers),
{
    get_cookie_field(&headers)
}

/// The text of the request's `Cookie` field: `Ok(None)` without one, an
/// error when it is not text (visible ASCII).
pub fn a_check(headers: HeaderMap) -> (r: Result<Option<String>, Option<String>>)
    ensures
        match r {
            Ok(None) => !has_cookie(headers),
            Ok(Some(s)) => has_cookie(headers) && visible_ascii(cookie_bytes(headers))
                && s@ == cookie_text(headers),
            Err(Some(m)) => has_cookie(headers) && !visible_ascii(cookie_bytes(headers))
                && m@ == to_str_failure(),
            Err(None) => false,
        },
{
    match read_cookie_field(&headers) {
        None => Ok(None),
        Some(None) => Err(Some("failed to convert header to a str".to_owned())),
        Some(Some(t)) => Ok(Some(string_of(t.as_slice()))),
    }
}

/// Whether the request has a `Cookie` field.
pub fn cookie_check(headers: HeaderMap) -> (r: bool)
    ensures
        r == has_cookie(headers),
{
    get_cookie_field(&headers).is_some()
}

/// The value of cookie `name`, or `"None"` when the request has no `Cookie`
/// field.
pub fn get_cookie(name: String, headers: HeaderMap) -> (r: String)
    requires
        cookie_readable(headers),
    ensures
        has_cookie(headers) ==> r@ == cookie_value(name@, cookie_text(headers)),
        !has_cookie(headers) ==> r@ == "None"@,
{
    if cookie_check_ref(&headers) {
        let n = chars_of(name.as_str());
        let v = request_cookie_chars(n.as_slice(), &headers);
        string_of(v.as_slice())
    } else {
        "None".to_owned()
    }
}

/// Whether the request has a `Cookie` field (by reference).
pub(crate) fn cookie_check_ref(headers: &HeaderMap) -> (r: bool)
    ensures
        r == has_cookie(*headers),
{
    get_cookie_field(headers).is_some()
}

/// The value of cookie `name`, `Some("")` when the request has no `Cookie`
/// field.
pub fn some_cookie(name: String, headers: HeaderMap) -> (r: Option<String>)
    requires
        cookie_readable(headers),
    ensures
        r matches Some(s) && s@ == request_cookie(name@, headers),
{
    let n = chars_of(name.as_str());
    let v = request_cookie_chars(n.as_slice(), &headers);
    Some(string_of(v.as_slice()))
}

/// The value of cookie `name`, `Ok(None)` when the request has no `Cookie`
/// field.
pub fn parse_cookie(name: String, headers: HeaderMap) -> (r: Result<Option<String>, Option<String>>)
    requires
        cookie_readable(headers),
    ensures
        !has_cookie(headers) ==> r matches Ok(None),
        has_cookie(headers) ==> (r matches Ok(Some(s)) && s@ == cookie_value(name@, cookie_text(headers))),
{
    match readable_cookie_text(&headers) {
        None => Ok(None),
        Some(t) => {
            let n = chars_of(name.as_str());
            let v = value_in(n.as_slice(), t.as_slice());
            Ok(Some(string_of(v.as_slice())))
        },
    }
}

/// The flash messages of the request: the `to_msg` cookie cut at `,`.
pub fn read_msg(cookie: HeaderMap) -> (r: Result<Option<Vec<String>>, Option<String>>)
    requires
        cookie_readable(cookie),
    ensures
        r matches Ok(Some(v)) && texts_of(v@) == split_on(request_cookie("to_msg"@, cookie), ','),
{
    let name = chars_of("to_msg");
    let token = request_cookie_chars(name.as_slice(), &cookie);
    let parts = split_chars(token.as_slice(), ',');
    let mut v: Vec<String> = Vec::new();
    let mut i: usize = 0;
    while i < parts.len()
        invariant
            i <= parts@.len(),
            texts_of(v@) == views_of(parts@).take(i as int),
        decreases parts@.len() - i,
    {
        let s = string_of(parts[i].as_slice());
        let ghost before = v@;
        assert(s@ == views_of(parts@)[i as int]);
        v.push(s);
        assert(v@ == before.push(s));
        assert(texts_of(v@) =~= texts_of(before).push(s@));
        i = i + 1;
        assert(texts_of(v@) =~= views_of(parts@).take(i as int));
    }
    assert(views_of(parts@).take(parts@.len() as int) =~= views_of(parts@));
    Ok(Some(v))
}

/// The request's first `Cookie` value, `Err(None)` without one.
pub fn headers_in(headers: HeaderMap) -> (r: Result<HeaderValue, Option<String>>)
    ensures
        r is Ok <==> has_cookie(headers),
        r matches Ok(v) ==> value_bytes(v) == cookie_bytes(headers),
        r matches Err(e) ==> e is None,
{
    match get_cookie_field(&headers) {
        None => Err(None),
        Some(v) => Ok(v),
    }
}

} // verus!
