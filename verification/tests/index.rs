use snapback::date::CaptureTime;
use snapback::index::RecordIndex;
use snapback::location::Coordinates;
use snapback::manifest::{Media, MediaType};

fn record(id: &str, secs: i64) -> Media {
    Media {
        date: CaptureTime { secs, nanos: 0 },
        media_type: MediaType::Image,
        coordinate: Coordinates { lat: "1".to_string(), lon: "2".to_string() },
        id: id.to_string(),
    }
}

#[test]
fn record_is_found_by_its_identifier() {
    let index = RecordIndex::build(vec![record("A", 1), record("B", 2), record("C", 3)]);
    assert_eq!(index.get("A"), Some(&record("A", 1)));
    assert_eq!(index.get("B"), Some(&record("B", 2)));
    assert_eq!(index.get("C"), Some(&record("C", 3)));
}

#[test]
fn unknown_identifier_finds_nothing() {
    let index = RecordIndex::build(vec![record("A", 1)]);
    assert_eq!(index.get("a"), None);
    assert_eq!(index.get(""), None);
    assert_eq!(index.get("AA"), None);
}

#[test]
fn empty_index_finds_nothing() {
    let index = RecordIndex::build(Vec::new());
    assert_eq!(index.get("A"), None);
}

#[test]
fn last_of_two_records_with_one_identifier_wins() {
    let index = RecordIndex::build(vec![record("A", 1), record("B", 2), record("A", 3)]);
    assert_eq!(index.get("A"), Some(&record("A", 3)));
    assert_eq!(index.get("B"), Some(&record("B", 2)));
}

#[test]
fn index_agrees_with_a_map_that_is_filled_in_order() {
    let records = vec![
        record("x", 1),
        record("y", 2),
        record("x", 3),
        record("z", 4),
        record("y", 5),
        record("", 6),
    ];
    let mut map = std::collections::HashMap::new();
    for r in &records {
        map.insert(r.id.clone(), r.clone());
    }
    let index = RecordIndex::build(records);
    for id in ["x", "y", "z", "", "w"] {
        assert_eq!(index.get(id), map.get(id));
    }
}
