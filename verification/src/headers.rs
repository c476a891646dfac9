//! The request headers that the authentication logic reads, as the `http`
//! crate (re-exported by axum) holds them.

use vstd::prelude::*;
use axum::http::{HeaderMap, HeaderValue};

verus! {

#[verifier::external_type_specification]
#[verifier::external_body]
#[verifier::reject_recursive_types(T)]
pub struct ExHeaderMap<T>(HeaderMap<T>);

#[verifier::external_type_specification]
#[verifier::external_body]
pub struct ExHeaderValue(HeaderValue);

/// What a header map holds: for each (lower-case) field name, the values
/// given for it, in the order they were added.
pub uninterp spec fn header_fields(headers: HeaderMap) -> Map<Seq<char>, Seq<Seq<u8>>>;

/// The bytes that a header value holds.
pub uninterp spec fn value_bytes(value: HeaderValue) -> Seq<u8>;

/// Whether the request carries a `Cookie` field.
pub open spec fn has_cookie(headers: HeaderMap) -> bool {
    header_fields(headers).contains_key("cookie"@)
}

/// The bytes of the first `Cookie` value of the request.
pub open spec fn cookie_bytes(headers: HeaderMap) -> Seq<u8>
    recommends
        has_cookie(headers),
{
    header_fields(headers)["cookie"@][0]
}

/// Calls `HeaderMap::get` with the name `"Cookie"` and clones what it finds.
/// The `http` source looks the name up case-insensitively (standard names
/// are stored in lower case) and hands back the first value stored under
/// it; a stored name always has at least one value.
#[verifier::external_body]
pub(crate) fn get_cookie_field(headers: &HeaderMap) -> (r: Option<HeaderValue>)
    ensures
        match r {
            Some(v) => {
                &&& header_fields(*headers).contains_key("cookie"@)
                &&& header_fields(*headers)["cookie"@].len() > 0
                &&& value_bytes(v) == header_fields(*headers)["cookie"@][0]
            },
            None => !header_fields(*headers).contains_key("cookie"@),
        },
{
    headers.get("Cookie").cloned()
}

/// Calls `HeaderValue::as_bytes`: the bytes the value holds, copied.
#[verifier::external_body]
pub(crate) fn value_as_bytes(value: &HeaderValue) -> (r: Vec<u8>)
    ensures
        r@ == value_bytes(*value),
{
    value.as_bytes().to_vec()
}

/// A byte is "visible ASCII" in the sense of `HeaderValue::to_str`:
/// printable ASCII or a horizontal tab.
pub open spec fn is_visible_ascii(b: u8) -> bool {
    (32 <= b && b < 127) || b == 9
}

/// Whether every byte of a header value is visible ASCII, which is when
/// `HeaderValue::to_str` succeeds.
pub open spec fn visible_ascii(bytes: Seq<u8>) -> bool {
    forall|i: int| 0 <= i < bytes.len() ==> is_visible_ascii(#[trigger] bytes[i])
}

/// The text of an ASCII byte sequence, one character per byte.
pub open spec fn ascii_text(bytes: Seq<u8>) -> Seq<char> {
    bytes.map_values(|b: u8| b as char)
}

/// The message of the error that `HeaderValue::to_str` reports.
pub open spec fn to_str_failure() -> Seq<char> {
    "failed to convert header to a str"@
}

/// A header value made only of printable ASCII (space to `~`) and tabs is
/// text: `HeaderValue::to_str` accepts every such byte.
pub proof fn law_printable_bytes_are_readable(bytes: Seq<u8>)
    requires
        forall|i: int| 0 <= i < bytes.len() ==> (32 <= #[trigger] bytes[i] && bytes[i] <= 126) || bytes[i] == 9,
    ensures
        visible_ascii(bytes),
{
}

/// A header value holding a control byte other than a tab, or a byte of 127
/// or above, is not text.
pub proof fn law_other_bytes_are_unreadable(bytes: Seq<u8>, i: int)
    requires
        0 <= i < bytes.len(),
        (bytes[i] < 32 && bytes[i] != 9) || bytes[i] >= 127,
    ensures
        !visible_ascii(bytes),
{
}

/// The text of a header value when all its bytes are visible ASCII
/// (`HeaderValue::to_str`), `None` otherwise.
pub fn header_text(bytes: &[u8]) -> (r: Option<Vec<char>>)
    ensures
        match r {
            Some(t) => visible_ascii(bytes@) && t@ == ascii_text(bytes@),
            None => !visible_ascii(bytes@),
        },
{
    let mut t: Vec<char> = Vec::new();
    let mut i: usize = 0;
    while i < bytes.len()
        invariant
            i <= bytes@.len(),
            visible_ascii(bytes@.take(i as int)),
            t@ == ascii_text(bytes@.take(i as int)),
        decreases bytes@.len() - i,
    {
        let b = bytes[i];
        if !((32 <= b && b < 127) || b == 9) {
            assert(!is_visible_ascii(bytes@[i as int]));
            return None;
        }
        t.push(b as char);
        i = i + 1;
        assert(bytes@.take(i as int).drop_last() =~= bytes@.take(i - 1));
        assert(t@ =~= ascii_text(bytes@.take(i as int)));
    }
    assert(bytes@.take(bytes@.len() as int) =~= bytes@);
    Some(t)
}

} // verus!
