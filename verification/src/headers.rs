//! HTTP headers: reading a header's text, and collecting `Set-Cookie` headers.
use crate::text;
use axum::http::HeaderMap;
use vstd::prelude::*;

verus! {

#[verifier::external_type_specification]
#[verifier::external_body]
#[verifier::reject_recursive_types(T)]
pub struct ExHeaderMap<T>(axum::http::HeaderMap<T>);

#[verifier::external_type_specification]
#[verifier::external_body]
pub struct ExHeaderValue(axum::http::HeaderValue);

/// What a header map holds: for each header name, in lower case, the bytes of its values in the
/// order in which they were appended.
pub uninterp spec fn header_values(headers: HeaderMap) -> Map<Seq<char>, Seq<Seq<u8>>>;

/// What a header map without headers holds.
pub open spec fn no_values() -> Map<Seq<char>, Seq<Seq<u8>>> {
    Map::empty()
}

/// The values that `values` has under `name`.
pub open spec fn values_of(values: Map<Seq<char>, Seq<Seq<u8>>>, name: Seq<char>) -> Seq<Seq<u8>> {
    if values.contains_key(name) {
        values[name]
    } else {
        Seq::empty()
    }
}

/// Whether `c` may stand in a header value: no control character but the tab.
pub open spec fn header_char(c: char) -> bool {
    (' ' <= c && c != '\u{7f}') || c == '\t'
}

/// Whether `text` can be a header value.
pub open spec fn header_safe(text: Seq<char>) -> bool {
    forall|i: int| 0 <= i < text.len() ==> header_char(#[trigger] text[i])
}

/// Whether `b` is a visible ASCII character, a space or a tab.
pub open spec fn visible(b: u8) -> bool {
    32 <= b < 127 || b == 9
}

/// The text of a header value, where all its bytes are visible ASCII.
pub open spec fn visible_text(bytes: Seq<u8>) -> Option<Seq<char>> {
    if forall|i: int| 0 <= i < bytes.len() ==> visible(#[trigger] bytes[i]) {
        Some(bytes.map_values(|b: u8| b as char))
    } else {
        None
    }
}

/// The text of the first value under `name`, where there is one and it is visible ASCII.
pub open spec fn first_text(values: Map<Seq<char>, Seq<Seq<u8>>>, name: Seq<char>) -> Option<
    Seq<char>,
> {
    if values_of(values, name).len() > 0 {
        visible_text(values_of(values, name)[0])
    } else {
        None
    }
}

/// Whether `text` can be a header value.
pub fn is_header_safe(text: &str) -> (r: bool)
    ensures
        r == header_safe(text@),
{
    let chars = text::to_chars(text);
    let mut i: usize = 0;
    while i < chars.len()
        invariant
            chars@ == text@,
            i <= chars@.len(),
            forall|j: int| 0 <= j < i ==> header_char(#[trigger] chars@[j]),
        decreases chars@.len() - i,
    {
        let c = chars[i];
        if !((' ' <= c && c != '\u{7f}') || c == '\t') {
            return false;
        }
        i += 1;
    }
    true
}

/// `HeaderMap::new`: a map without headers.
#[verifier::external_body]
pub(crate) fn no_headers() -> (r: HeaderMap)
    ensures
        header_values(r) == no_values(),
{
    HeaderMap::new()
}

/// `HeaderMap::append` under `Set-Cookie`: `cookie`, which must be a possible header value, comes
/// behind the values already there, and no other header changes. A map refuses to grow without
/// bound, so the claim is made for maps that hold at most one header name.
#[verifier::external_body]
pub(crate) fn append_set_cookie(headers: &mut HeaderMap, cookie: &str)
    requires
        header_safe(cookie@),
        header_values(*old(headers)).dom().finite(),
        header_values(*old(headers)).dom().len() <= 1,
    ensures
        header_values(*final(headers)) == header_values(*old(headers)).insert(
            "set-cookie"@,
            values_of(header_values(*old(headers)), "set-cookie"@).push(
                vstd::utf8::encode_utf8(cookie@),
            ),
        ),
{
    headers.append(axum::http::header::SET_COOKIE, cookie.parse().unwrap());
}

/// `HeaderMap::get` and `HeaderValue::to_str`: the first value under `name`, which must be in
/// lower case, as text; nothing where there is no such header or a byte of the value is neither
/// visible ASCII nor a space or tab.
#[verifier::external_body]
pub(crate) fn header_text(headers: &HeaderMap, name: &str) -> (r: Option<String>)
    requires
        forall|i: int| 0 <= i < name@.len() ==> !('A' <= #[trigger] name@[i] <= 'Z'),
    ensures
        text::shown(r) == first_text(header_values(*headers), name@),
{
    headers.get(name)?.to_str().ok().map(|text| text.to_owned())
}

/// The text of the `Content-Type` header.
pub fn content_type(headers: &HeaderMap) -> (r: Option<String>)
    ensures
        text::shown(r) == first_text(header_values(*headers), "content-type"@),
{
    proof {
        reveal_strlit("content-type");
    }
    header_text(headers, "content-type")
}

/// Any text can be a header value that holds no control character, and one that holds one cannot,
/// but for the tab.
pub proof fn law_only_control_characters_are_unsafe(text: Seq<char>)
    ensures
        header_safe(text) <==> forall|i: int|
            0 <= i < text.len() ==> {
                let code: int = #[trigger] text[i] as int;
                code == 9 || code == 32 || 33 <= code < 127 || code > 127
            },
{
    assert forall|c: char| #[trigger] header_char(c) <==> {
        let code: int = c as int;
        code == 9 || code == 32 || 33 <= code < 127 || code > 127
    } by {}
}

} // verus!
