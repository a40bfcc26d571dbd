//! Reading and checking HTTP header values.

use hyper::header::HeaderValue;
use hyper::HeaderMap;
use vstd::prelude::*;

verus! {

/// `http`'s header multimap, as `hyper` exports it.
#[verifier::external_type_specification]
#[verifier::external_body]
#[verifier::reject_recursive_types(T)]
pub struct ExHeaderMap<T>(hyper::HeaderMap<T>);

/// `http`'s header value.
#[verifier::external_type_specification]
#[verifier::external_body]
pub struct ExHeaderValue(hyper::header::HeaderValue);

/// What a header map holds: for each name under which a lookup finds
/// something, the bytes of the first value stored there.
pub uninterp spec fn header_values(headers: HeaderMap<HeaderValue>) -> Map<Seq<char>, Seq<u8>>;

/// `HeaderMap::get` with a `&str` key, copied out: the bytes of the first value
/// stored under `name`, or `None` when the map holds no such name.
#[verifier::external_body]
fn first_header(headers: &HeaderMap<HeaderValue>, name: &str) -> (value: Option<Vec<u8>>)
    ensures
        match value {
            Some(bytes) => header_values(*headers).contains_key(name@) && bytes@ == header_values(
                *headers,
            )[name@],
            None => !header_values(*headers).contains_key(name@),
        },
{
    headers.get(name).map(|value| value.as_bytes().to_vec())
}

/// Bytes that count as text in a header value: printable ASCII and the tab.
pub open spec fn is_visible(b: u8) -> bool {
    32 <= b < 127 || b == 9
}

/// Header bytes as text; a value with any other byte is not text.
pub open spec fn visible_text(bytes: Seq<u8>) -> Option<Seq<char>> {
    if forall|i: int| 0 <= i < bytes.len() ==> is_visible(#[trigger] bytes[i]) {
        Some(bytes.map_values(|b: u8| b as char))
    } else {
        None
    }
}

/// The text of the first value of the header `name`, if there is one and it is text.
pub open spec fn header_text(headers: HeaderMap<HeaderValue>, name: Seq<char>) -> Option<
    Seq<char>,
> {
    if header_values(headers).contains_key(name) {
        visible_text(header_values(headers)[name])
    } else {
        None
    }
}

/// Decodes header bytes that are all visible ASCII or tabs.
pub fn decode_visible(bytes: &[u8]) -> (r: Option<String>)
    ensures
        match r {
            Some(text) => visible_text(bytes@) == Some(text@),
            None => visible_text(bytes@) is None,
        },
{
    let mut text = String::new();
    let mut i: usize = 0;
    while i < bytes.len()
        invariant
            i <= bytes@.len(),
            text@ == bytes@.take(i as int).map_values(|b: u8| b as char),
            forall|j: int| 0 <= j < i ==> is_visible(#[trigger] bytes@[j]),
        decreases bytes@.len() - i,
    {
        let b = bytes[i];
        if !((32 <= b && b < 127) || b == 9) {
            assert(!is_visible(bytes@[i as int]));
            return None;
        }
        text.push(b as char);
        assert(bytes@.take(i + 1) == bytes@.take(i as int).push(b));
        assert(text@ == bytes@.take(i + 1).map_values(|b: u8| b as char));
        i = i + 1;
    }
    assert(bytes@.take(i as int) == bytes@);
    Some(text)
}

/// The text of the first value of the header `name`, if there is one and it is text.
pub fn get_text(headers: &HeaderMap<HeaderValue>, name: &str) -> (r: Option<String>)
    ensures
        match r {
            Some(text) => header_text(*headers, name@) == Some(text@),
            None => header_text(*headers, name@) is None,
        },
        r is Some <==> header_values(*headers).contains_key(name@) && forall|i: int|
            0 <= i < header_values(*headers)[name@].len() ==> #[trigger] header_values(
                *headers,
            )[name@][i] == 9 || 32 <= header_values(*headers)[name@][i] <= 126,
        r matches Some(text) ==> text@.len() == header_values(*headers)[name@].len() && forall|
            i: int,
        |
            0 <= i < text@.len() ==> #[trigger] text@[i] as int == header_values(
                *headers,
            )[name@][i],
{
    proof {
        text_is_the_bytes(header_values(*headers)[name@]);
    }
    match first_header(headers, name) {
        Some(bytes) => decode_visible(bytes.as_slice()),
        None => None,
    }
}

/// Characters that a header value may hold: the tab and everything from the
/// space on, except DEL.
pub open spec fn is_header_char(c: char) -> bool {
    c == '\t' || (c >= ' ' && c != '\x7f')
}

/// `HeaderValue::from_str` accepts exactly the texts made of [`is_header_char`]s.
#[verifier::external_body]
pub(crate) fn is_header_value(text: &str) -> (r: bool)
    ensures
        r == (forall|i: int| 0 <= i < text@.len() ==> is_header_char(#[trigger] text@[i])),
{
    HeaderValue::from_str(text).is_ok()
}

/// A header value is text exactly when all its bytes are tabs or printable ASCII,
/// and then its characters are those bytes, one for one.
pub proof fn text_is_the_bytes(bytes: Seq<u8>)
    ensures
        visible_text(bytes) is Some <==> forall|i: int|
            0 <= i < bytes.len() ==> #[trigger] bytes[i] == 9 || 32 <= bytes[i] <= 126,
        visible_text(bytes) matches Some(text) ==> text.len() == bytes.len() && forall|i: int|
            0 <= i < bytes.len() ==> #[trigger] text[i] as int == bytes[i],
{
    if forall|i: int| 0 <= i < bytes.len() ==> #[trigger] bytes[i] == 9 || 32 <= bytes[i] <= 126 {
        assert forall|i: int| 0 <= i < bytes.len() implies is_visible(#[trigger] bytes[i]) by {}
    }
    if visible_text(bytes) is Some {
        assert forall|i: int| 0 <= i < bytes.len() implies #[trigger] bytes[i] == 9 || 32
            <= bytes[i] <= 126 by {
            assert(is_visible(bytes[i]));
        }
    }
}

} // verus!
