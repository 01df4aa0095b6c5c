use sync_hub::msg::Message;
use sync_hub::request::ascii_eq_ignore_case;
use sync_hub::request::contains_subslice;
use sync_hub::request::format_u32;
use sync_hub::request::status_line;
use sync_hub::store::Store;
use sync_hub::store::StoreConfig;

#[test]
fn decimal_rendering_is_exact() {
    assert_eq!(format_u32(0), b"0".to_vec());
    assert_eq!(format_u32(7), b"7".to_vec());
    assert_eq!(format_u32(10), b"10".to_vec());
    assert_eq!(format_u32(409), b"409".to_vec());
    assert_eq!(format_u32(u32::MAX), b"4294967295".to_vec());
}

#[test]
fn status_line_is_exact() {
    let mut s = Store::initialize(StoreConfig {
        name: b"Rusty".to_vec(),
        count: 7,
    });
    assert_eq!(status_line(&s), b"Rusty / 7 / 0 / Dog URL not set yet".to_vec());

    s.apply(&Message::IncrementCounter);
    s.apply(&Message::NewValue(b"https://example.com/x.jpg".to_vec()));
    assert_eq!(
        status_line(&s),
        b"Rusty / 7 / 1 / https://example.com/x.jpg".to_vec()
    );
}

#[test]
fn header_names_match_case_insensitively() {
    assert!(ascii_eq_ignore_case(b"X-ChatGPT", b"x-chatgpt"));
    assert!(ascii_eq_ignore_case(b"content-length", b"Content-Length"));
    assert!(!ascii_eq_ignore_case(b"X-ChatGPT", b"X-ChatGPT2"));
    assert!(!ascii_eq_ignore_case(b"X-Rust", b"X-Dust"));
}

#[test]
fn substring_test_matches_the_string_contains() {
    assert!(contains_subslice(b"hello world", b"o w"));
    assert!(contains_subslice(b"hello world", b""));
    assert!(contains_subslice(b"hello world", b"hello world"));
    assert!(!contains_subslice(b"hello world", b"worlds"));
    assert!(!contains_subslice(b"abc", b"abcd"));
}
