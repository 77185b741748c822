use snapback::error::DecodeError;
use snapback::link::parse_id;

#[test]
fn identifier_between_the_markers() {
    let link = "https://app.example.com/dmd/memories?uid=77&sid=ABC-123&mid=9f&ts=1";
    assert_eq!(parse_id(link), Ok("ABC-123".to_string()));
}

#[test]
fn identifier_ends_at_the_first_end_marker() {
    assert_eq!(parse_id("x&sid=one&mid=two&mid=three"), Ok("one".to_string()));
}

#[test]
fn identifier_starts_after_the_first_start_marker() {
    assert_eq!(parse_id("&sid=a&sid=b&mid"), Ok("a&sid=b".to_string()));
}

#[test]
fn identifier_may_be_empty() {
    assert_eq!(parse_id("u?&sid=&mid"), Ok(String::new()));
}

#[test]
fn link_without_start_marker_is_malformed() {
    assert_eq!(parse_id("https://example.com/?sid=ABC&mid=1"), Err(DecodeError::MalformedLink));
}

#[test]
fn link_without_end_marker_is_malformed() {
    assert_eq!(parse_id("https://example.com/?a=1&sid=ABC"), Err(DecodeError::MalformedLink));
}

#[test]
fn end_marker_before_start_marker_does_not_count() {
    assert_eq!(parse_id("&mid=1&sid=ABC"), Err(DecodeError::MalformedLink));
}

#[test]
fn identifier_with_characters_beyond_ascii() {
    assert_eq!(parse_id("é&sid=ñandú&mid"), Ok("ñandú".to_string()));
}
