use hyper::header::HeaderValue;
use hyper::HeaderMap;
use jellyswarrm_proxy::client_ip::{extract_client_ip, name_client};
use jellyswarrm_proxy::headers::{decode_visible, get_text};

#[test]
fn extracts_the_left_most_forwarded_for_entry() {
    let mut headers = HeaderMap::new();
    headers.insert(
        "x-forwarded-for",
        HeaderValue::from_static("203.0.113.5, 10.0.0.1, 10.0.0.2"),
    );
    assert_eq!(extract_client_ip(&headers), "203.0.113.5");
}

#[test]
fn falls_back_to_unknown_when_header_absent() {
    let headers = HeaderMap::new();
    assert_eq!(extract_client_ip(&headers), "unknown");
}

#[test]
fn empty_entry_is_unknown() {
    assert_eq!(name_client(Some(" \u{a0}, 10.0.0.1".to_owned())), "unknown");
    assert_eq!(name_client(Some(String::new())), "unknown");
    assert_eq!(name_client(None), "unknown");
}

#[test]
fn entry_is_trimmed_but_not_split_inside() {
    assert_eq!(name_client(Some("\t a b \u{2003}".to_owned())), "a b");
}

#[test]
fn only_the_first_header_of_the_name_counts() {
    let mut headers = HeaderMap::new();
    headers.append("x-forwarded-for", HeaderValue::from_static("1.1.1.1"));
    headers.append("x-forwarded-for", HeaderValue::from_static("2.2.2.2"));
    headers.insert("x-other", HeaderValue::from_static("3.3.3.3"));
    assert_eq!(extract_client_ip(&headers), "1.1.1.1");
    assert_eq!(get_text(&headers, "x-other"), Some("3.3.3.3".to_owned()));
    assert_eq!(get_text(&headers, "x-missing"), None);
}

#[test]
fn header_that_is_not_visible_text_is_passed_over() {
    let mut headers = HeaderMap::new();
    headers.insert(
        "x-forwarded-for",
        HeaderValue::from_bytes(b"1.1.1.1\xff").unwrap(),
    );
    assert_eq!(extract_client_ip(&headers), "unknown");
    assert_eq!(decode_visible(b"a\tb~ "), Some("a\tb~ ".to_owned()));
    assert_eq!(decode_visible(b"a\x7f"), None);
    assert_eq!(decode_visible(b""), Some(String::new()));
}
