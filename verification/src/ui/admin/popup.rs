//! Messages that pop up in an admin's browser, carried by a response header.

use vstd::prelude::*;

use crate::headers;

verus! {

pub open spec fn hex_digit(n: int) -> char {
    if n < 10 {
        ('0' as int + n) as char
    } else {
        ('a' as int + n - 10) as char
    }
}

/// A character inside a JSON string.
pub open spec fn json_char(c: char) -> Seq<char> {
    if c == '"' {
        seq!['\\', '"']
    } else if c == '\\' {
        seq!['\\', '\\']
    } else if c == '\x08' {
        seq!['\\', 'b']
    } else if c == '\t' {
        seq!['\\', 't']
    } else if c == '\n' {
        seq!['\\', 'n']
    } else if c == '\x0c' {
        seq!['\\', 'f']
    } else if c == '\r' {
        seq!['\\', 'r']
    } else if c <= '\x1f' {
        seq!['\\', 'u', '0', '0', hex_digit(c as int / 16), hex_digit(c as int % 16)]
    } else {
        seq![c]
    }
}

pub open spec fn json_chars(s: Seq<char>) -> Seq<char>
    decreases s.len(),
{
    if s.len() == 0 {
        Seq::empty()
    } else {
        json_chars(s.drop_last()) + json_char(s.last())
    }
}

/// A text as a JSON string.
pub open spec fn json_string(s: Seq<char>) -> Seq<char> {
    seq!['"'] + json_chars(s) + seq!['"']
}

/// A JSON object whose only member is an object whose only member is a string.
pub open spec fn json_nested(outer: Seq<char>, inner: Seq<char>, value: Seq<char>) -> Seq<char> {
    seq!['{'] + json_string(outer) + seq![':', '{'] + json_string(inner) + seq![':'] + json_string(
        value,
    ) + seq!['}', '}']
}

/// `serde_json::Value::to_string`, on an object that holds one object that holds
/// one string: the compact text, without spaces, in which strings have quotes,
/// backslashes and control characters below the space escaped, and no others.
#[verifier::external_body]
fn nested_object_text(outer: &str, inner: &str, value: &str) -> (r: String)
    ensures
        r@ == json_nested(outer@, inner@, value@),
{
    let mut low = serde_json::Map::new();
    low.insert(inner.to_owned(), serde_json::Value::String(value.to_owned()));
    let mut high = serde_json::Map::new();
    high.insert(outer.to_owned(), serde_json::Value::Object(low));
    serde_json::Value::Object(high).to_string()
}

/// The payload that makes a message pop up.
pub open spec fn popup_payload(message: Seq<char>) -> Seq<char> {
    json_nested("admin-popup"@, "message"@, message)
}

/// Whether a header can carry this text.
pub open spec fn fits_header(text: Seq<char>) -> bool {
    forall|i: int| 0 <= i < text.len() ==> headers::is_header_char(#[trigger] text[i])
}

/// The value of the `HX-Trigger` header that makes `message` pop up; none when a
/// header cannot carry it, and the response then goes out without it.
pub fn with_popup(message: &str) -> (r: Option<String>)
    ensures
        match r {
            Some(payload) => payload@ == popup_payload(message@) && fits_header(payload@),
            None => !fits_header(popup_payload(message@)),
        },
{
    let payload = nested_object_text("admin-popup", "message", message);
    if headers::is_header_value(payload.as_str()) {
        Some(payload)
    } else {
        None
    }
}

proof fn fits_together(a: Seq<char>, b: Seq<char>)
    ensures
        fits_header(a + b) <==> fits_header(a) && fits_header(b),
{
    if fits_header(a + b) {
        assert forall|i: int| 0 <= i < a.len() implies headers::is_header_char(#[trigger] a[i]) by {
            assert((a + b)[i] == a[i]);
        }
        assert forall|i: int| 0 <= i < b.len() implies headers::is_header_char(#[trigger] b[i]) by {
            assert((a + b)[a.len() + i] == b[i]);
        }
    }
}

proof fn json_char_fits(c: char)
    ensures
        fits_header(json_char(c)) <==> c != '\x7f',
{
    let encoded = json_char(c);
    if c == '\x7f' {
        assert(encoded[0] == '\x7f');
    }
}

proof fn json_chars_fit(s: Seq<char>)
    ensures
        fits_header(json_chars(s)) <==> !s.contains('\x7f'),
    decreases s.len(),
{
    if s.len() > 0 {
        let front = s.drop_last();
        json_chars_fit(front);
        json_char_fits(s.last());
        fits_together(json_chars(front), json_char(s.last()));
        if front.contains('\x7f') {
            let i = choose|i: int| 0 <= i < front.len() && front[i] == '\x7f';
            assert(s[i] == '\x7f');
        }
        if s.contains('\x7f') && s.last() != '\x7f' {
            let i = choose|i: int| 0 <= i < s.len() && s[i] == '\x7f';
            assert(front[i] == '\x7f');
        }
        if s.last() == '\x7f' {
            assert(s[s.len() - 1] == '\x7f');
        }
    }
}

/// Every message reaches the admin, unless it holds a delete character.
pub proof fn popup_is_shown(message: Seq<char>)
    ensures
        fits_header(popup_payload(message)) <==> !message.contains('\x7f'),
{
    let outer = "admin-popup"@;
    let inner = "message"@;
    reveal_strlit("admin-popup");
    reveal_strlit("message");
    json_chars_fit(outer);
    json_chars_fit(inner);
    json_chars_fit(message);
    let quote = seq!['"'];
    fits_together(quote, json_chars(outer));
    fits_together(quote + json_chars(outer), quote);
    fits_together(quote, json_chars(inner));
    fits_together(quote + json_chars(inner), quote);
    fits_together(quote, json_chars(message));
    fits_together(quote + json_chars(message), quote);
    let a = seq!['{'] + json_string(outer);
    let b = a + seq![':', '{'];
    let c = b + json_string(inner);
    let d = c + seq![':'];
    let e = d + json_string(message);
    fits_together(seq!['{'], json_string(outer));
    fits_together(a, seq![':', '{']);
    fits_together(b, json_string(inner));
    fits_together(c, seq![':']);
    fits_together(d, json_string(message));
    fits_together(e, seq!['}', '}']);
    assert(fits_header(quote));
    assert(fits_header(seq!['{']));
    assert(fits_header(seq![':', '{']));
    assert(fits_header(seq![':']));
    assert(fits_header(seq!['}', '}']));
    assert(e + seq!['}', '}'] == popup_payload(message));
}

/// The payload is one object with one member, `admin-popup`, which is an object with
/// one member, `message`, which is the message as a JSON string.
pub proof fn popup_holds_the_message(message: Seq<char>)
    ensures
        popup_payload(message) == "{\"admin-popup\":{\"message\":\""@ + json_chars(message)
            + "\"}}"@,
{
    reveal_strlit("admin-popup");
    reveal_strlit("message");
    reveal_strlit("{\"admin-popup\":{\"message\":\"");
    reveal_strlit("\"}}");
    plain_text_stays("admin-popup"@);
    plain_text_stays("message"@);
    assert(popup_payload(message) =~= "{\"admin-popup\":{\"message\":\""@ + json_chars(message)
        + "\"}}"@);
}

/// A text without quotes, backslashes and control characters is the same inside a
/// JSON string.
pub proof fn plain_text_stays(s: Seq<char>)
    requires
        forall|i: int|
            0 <= i < s.len() ==> #[trigger] s[i] >= ' ' && s[i] != '"' && s[i] != '\\',
    ensures
        json_chars(s) == s,
    decreases s.len(),
{
    if s.len() > 0 {
        let front = s.drop_last();
        assert forall|i: int| 0 <= i < front.len() implies #[trigger] front[i] >= ' ' && front[i]
            != '"' && front[i] != '\\' by {
            assert(front[i] == s[i]);
        }
        plain_text_stays(front);
        assert(s[s.len() - 1] == s.last());
        assert(json_char(s.last()) =~= seq![s.last()]);
        assert(front + seq![s.last()] =~= s);
    }
}

} // verus!
