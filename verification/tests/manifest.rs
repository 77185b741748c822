use snapback::date::CaptureTime;
use snapback::error::DecodeError;
use snapback::location::Coordinates;
use snapback::manifest::{
    decode, decode_manifest, parse_media_type, ManifestError, Media, MediaType, MemoriesHistory,
    RawMedia,
};

fn entry(date: &str, kind: &str, location: &str, link: &str) -> RawMedia {
    RawMedia {
        date: date.to_string(),
        media_type: kind.to_string(),
        location: location.to_string(),
        download_link: link.to_string(),
    }
}

fn good(id: &str) -> RawMedia {
    entry(
        "2023-06-01 12:00:00 UTC",
        "Image",
        "Latitude, Longitude: 10.0, 20.0",
        &format!("https://example.com/dl?uid=1&sid={id}&mid=2"),
    )
}

fn record(id: &str) -> Media {
    Media {
        date: CaptureTime { secs: 1_685_620_800, nanos: 0 },
        media_type: MediaType::Image,
        coordinate: Coordinates { lat: "10.0".to_string(), lon: "20.0".to_string() },
        id: id.to_string(),
    }
}

#[test]
fn media_types() {
    assert_eq!(parse_media_type(&"Image".to_string()), Ok(MediaType::Image));
    assert_eq!(parse_media_type(&"Video".to_string()), Ok(MediaType::Video));
}

#[test]
fn other_media_types_are_unknown() {
    for s in ["", "image", "VIDEO", "Audio", "Image ", "Videos"] {
        assert_eq!(parse_media_type(&s.to_string()), Err(DecodeError::UnknownMediaType));
    }
}

#[test]
fn entry_decodes_to_a_record() {
    let raw = entry(
        "2021-12-31 23:59:58 UTC",
        "Video",
        "Latitude, Longitude: 12.5, -45.25",
        "https://example.com/dl?uid=1&sid=ABC-123&mid=2",
    );
    assert_eq!(
        decode(&raw),
        Ok(Media {
            date: CaptureTime { secs: 1_640_995_198, nanos: 0 },
            media_type: MediaType::Video,
            coordinate: Coordinates { lat: "12.5".to_string(), lon: "-45.25".to_string() },
            id: "ABC-123".to_string(),
        })
    );
}

#[test]
fn each_field_can_fail_the_entry() {
    let mut raw = good("A");
    raw.date = "yesterday".to_string();
    assert_eq!(decode(&raw), Err(DecodeError::DateShape));
    let mut raw = good("A");
    raw.date = "2023-00-10 00:00:00 UTC".to_string();
    assert_eq!(decode(&raw), Err(DecodeError::DateInvalid));
    let mut raw = good("A");
    raw.media_type = "Story".to_string();
    assert_eq!(decode(&raw), Err(DecodeError::UnknownMediaType));
    let mut raw = good("A");
    raw.location = "nowhere".to_string();
    assert_eq!(decode(&raw), Err(DecodeError::MissingColon));
    let mut raw = good("A");
    raw.location = "x: 1".to_string();
    assert_eq!(decode(&raw), Err(DecodeError::ComponentCount));
    let mut raw = good("A");
    raw.location = "x: a, b".to_string();
    assert_eq!(decode(&raw), Err(DecodeError::NotNumeric));
    let mut raw = good("A");
    raw.download_link = "https://example.com".to_string();
    assert_eq!(decode(&raw), Err(DecodeError::MalformedLink));
}

#[test]
fn first_malformed_field_gives_the_error() {
    let raw = entry("bad", "bad", "bad", "bad");
    assert_eq!(decode(&raw), Err(DecodeError::DateShape));
    let raw = entry("2023-06-01 12:00:00 UTC", "bad", "bad", "bad");
    assert_eq!(decode(&raw), Err(DecodeError::UnknownMediaType));
    let raw = entry("2023-06-01 12:00:00 UTC", "Image", "bad", "bad");
    assert_eq!(decode(&raw), Err(DecodeError::MissingColon));
}

#[test]
fn manifest_keeps_the_order_of_its_entries() {
    let entries = vec![good("A"), good("B"), good("C")];
    assert_eq!(
        decode_manifest(&entries),
        Ok(MemoriesHistory { saved_media: vec![record("A"), record("B"), record("C")] })
    );
}

#[test]
fn empty_manifest_has_no_records() {
    assert_eq!(decode_manifest(&Vec::new()), Ok(MemoriesHistory { saved_media: Vec::new() }));
}

#[test]
fn one_malformed_entry_fails_the_manifest() {
    let mut bad = good("B");
    bad.location = "x: 1, 2, 3".to_string();
    let entries = vec![good("A"), bad, good("C")];
    assert_eq!(
        decode_manifest(&entries),
        Err(ManifestError { index: 1, cause: DecodeError::ComponentCount })
    );
}

#[test]
fn error_names_the_first_malformed_entry() {
    let mut first = good("B");
    first.download_link = "nothing".to_string();
    let mut second = good("C");
    second.date = "never".to_string();
    let entries = vec![good("A"), first, second];
    assert_eq!(
        decode_manifest(&entries),
        Err(ManifestError { index: 1, cause: DecodeError::MalformedLink })
    );
}

#[test]
fn every_error_has_its_text() {
    assert_eq!(DecodeError::MalformedLink.message(), "Could not parse ID from Download Link");
    assert_eq!(DecodeError::MissingColon.message(), "Missing colon in Location string");
    assert_eq!(DecodeError::ComponentCount.message(), "Expected two comma-separated values");
    assert_eq!(DecodeError::NotNumeric.message(), "invalid float literal");
    assert_eq!(
        DecodeError::DateShape.message(),
        "input is not of the form YYYY-MM-DD HH:MM:SS UTC"
    );
    assert_eq!(DecodeError::DateInvalid.message(), "input is out of range");
    assert_eq!(
        DecodeError::UnknownMediaType.message(),
        "unknown variant, expected `Image` or `Video`"
    );
}
