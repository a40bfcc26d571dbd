//! Best-effort client identification for rate limiting the login endpoint.
//!
//! The proxy sits behind one trusted reverse proxy, so the left-most entry of
//! `X-Forwarded-For` names the original client. Requests without a usable
//! entry share one identifier.

use hyper::header::HeaderValue;
use hyper::HeaderMap;
use vstd::prelude::*;

use crate::headers;
use crate::text;

verus! {

/// The client that a forwarded-for text names: its first comma-separated entry,
/// trimmed, or `unknown` when that is empty or there is no text.
pub open spec fn client_name(forwarded: Option<Seq<char>>) -> Seq<char> {
    match forwarded {
        Some(list) => {
            let first = text::trimmed(text::before_first(list, ','));
            if first.len() == 0 {
                "unknown"@
            } else {
                first
            }
        },
        None => "unknown"@,
    }
}

/// Names the client behind a forwarded-for text.
pub fn name_client(forwarded: Option<String>) -> (r: String)
    ensures
        r@ == client_name(
            match forwarded {
                Some(list) => Some(list@),
                None => None,
            },
        ),
{
    match forwarded {
        Some(list) => {
            let first = text::trim(text::until(list.as_str(), ',').as_str());
            if first.as_str().is_empty() {
                "unknown".to_owned()
            } else {
                first
            }
        },
        None => "unknown".to_owned(),
    }
}

/// The identifier under which a request's login failures are counted.
pub fn extract_client_ip(headers: &HeaderMap<HeaderValue>) -> (r: String)
    ensures
        r@ == client_name(headers::header_text(*headers, "x-forwarded-for"@)),
{
    name_client(headers::get_text(headers, "x-forwarded-for"))
}

/// The identifier is never empty.
pub proof fn client_name_is_never_empty(forwarded: Option<Seq<char>>)
    ensures
        client_name(forwarded).len() > 0,
{
    reveal_strlit("unknown");
}

/// A forwarded-for text names the client by a stretch of it that holds no comma
/// and lies before the first one, with only white space around it; where there is
/// nothing but white space there, or no text at all, the client is unknown.
pub proof fn client_name_is_the_first_entry(list: Seq<char>)
    ensures
        client_name(None) == "unknown"@,
        ({
            let entry = text::before_first(list, ',');
            let name = client_name(Some(list));
            &&& entry == list.take(entry.len() as int) && !entry.contains(',')
            &&& entry.len() < list.len() ==> list[entry.len() as int] == ','
            &&& if forall|k: int| 0 <= k < entry.len() ==> text::is_white(#[trigger] entry[k]) {
                name == "unknown"@
            } else {
                &&& !text::is_white(name[0]) && !text::is_white(name.last())
                &&& exists|i: int, j: int| #[trigger]
                    text::white_outside(entry, i, j) && name == entry.subrange(i, j)
            }
        }),
{
    text::before_first_ends_at_the_first(list, ',');
    text::trimming_takes_white_space_only(text::before_first(list, ','));
}

} // verus!
