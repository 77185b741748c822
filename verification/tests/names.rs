use snapback::names::{
    extension_of, file_stem_of, identifier_of, is_main, is_video, overlay_sibling,
    parse_id_from_stem, sibling,
};
use snapback::policy::FileRole;

#[test]
fn stem_yields_the_identifier_between_date_and_suffix() {
    assert_eq!(parse_id_from_stem("2023-01-01_ABC123-main"), Some("ABC123".to_string()));
}

#[test]
fn file_name_yields_the_identifier() {
    assert_eq!(identifier_of("2023-01-01_ABC123-main.jpg"), Some("ABC123".to_string()));
    assert_eq!(identifier_of("2023-01-01_ABC123-main.mp4"), Some("ABC123".to_string()));
    assert_eq!(identifier_of("2023-01-01_ABC123-overlay.png"), Some("ABC123".to_string()));
}

#[test]
fn name_without_underscore_yields_nothing() {
    assert_eq!(identifier_of("2023-01-01.jpg"), None);
    assert_eq!(parse_id_from_stem("2023-01-01"), None);
}

#[test]
fn stem_without_dash_after_the_underscore_yields_nothing() {
    assert_eq!(parse_id_from_stem("2023-01-01_ABC123"), None);
    assert_eq!(parse_id_from_stem("_"), None);
    assert_eq!(parse_id_from_stem(""), None);
}

#[test]
fn identifier_may_hold_dashes_and_underscores() {
    assert_eq!(
        parse_id_from_stem("2023-01-01_0a1b-2c3d_4e5f-main"),
        Some("0a1b-2c3d_4e5f".to_string())
    );
}

#[test]
fn stem_identifier_may_be_empty() {
    assert_eq!(parse_id_from_stem("2023-01-01_-main"), Some(String::new()));
}

#[test]
fn stem_and_extension_part_at_the_last_point() {
    assert_eq!(file_stem_of("a.b.jpg"), "a.b");
    assert_eq!(extension_of("a.b.jpg"), "jpg");
    assert_eq!(file_stem_of("2023-01-01_X-main.mp4"), "2023-01-01_X-main");
    assert_eq!(extension_of("2023-01-01_X-main.mp4"), "mp4");
}

#[test]
fn name_without_point_has_no_extension() {
    assert_eq!(file_stem_of("README"), "README");
    assert_eq!(extension_of("README"), "");
}

#[test]
fn leading_point_starts_no_extension() {
    assert_eq!(file_stem_of(".hidden"), ".hidden");
    assert_eq!(extension_of(".hidden"), "");
    assert_eq!(file_stem_of(".hidden.jpg"), ".hidden");
    assert_eq!(extension_of(".hidden.jpg"), "jpg");
}

#[test]
fn trailing_point_leaves_an_empty_extension() {
    assert_eq!(file_stem_of("name."), "name");
    assert_eq!(extension_of("name."), "");
}

#[test]
fn stem_and_extension_agree_with_the_standard_library() {
    for name in ["a.jpg", "a.b.c", ".x", "..x", "x.", "x", "a-main.mp4", "ü.é", "...", "a..b"] {
        let path = std::path::Path::new(name);
        assert_eq!(file_stem_of(name), path.file_stem().unwrap().to_str().unwrap(), "{name}");
        assert_eq!(
            extension_of(name),
            path.extension().map(|e| e.to_str().unwrap()).unwrap_or(""),
            "{name}"
        );
    }
}

#[test]
fn main_files_are_told_by_their_ending() {
    assert!(is_main("2023-01-01_X-main.jpg"));
    assert!(is_main("2023-01-01_X-main.mp4"));
    assert!(is_main("-main.jpg"));
    assert!(!is_main("2023-01-01_X-main.png"));
    assert!(!is_main("2023-01-01_X-overlay.png"));
    assert!(!is_main("2023-01-01_X.jpg"));
    assert!(!is_main("main.jpg"));
    assert!(!is_main("2023-01-01_X-main.JPG"));
    assert!(!is_main(""));
}

#[test]
fn videos_are_told_by_their_ending() {
    assert!(is_video("a-main.mp4"));
    assert!(is_video(".mp4"));
    assert!(!is_video("a-main.jpg"));
    assert!(!is_video("mp4"));
}

#[test]
fn overlay_stands_beside_the_main_file() {
    assert_eq!(
        overlay_sibling("2023-01-01_X-main.jpg"),
        Some("2023-01-01_X-overlay.png".to_string())
    );
    assert_eq!(
        overlay_sibling("2023-01-01_X-main.mp4"),
        Some("2023-01-01_X-overlay.png".to_string())
    );
    assert_eq!(overlay_sibling("2023-01-01_X.jpg"), None);
}

#[test]
fn only_the_ending_of_a_main_file_is_replaced() {
    assert_eq!(
        overlay_sibling("a-main.jpg-main.jpg"),
        Some("a-main.jpg-overlay.png".to_string())
    );
}

#[test]
fn names_of_the_files_of_a_task() {
    let name = "2023-06-01_XYZ-main.jpg";
    assert_eq!(sibling(name, FileRole::Main), Some(name.to_string()));
    assert_eq!(sibling(name, FileRole::Overlay), Some("2023-06-01_XYZ-overlay.png".to_string()));
    assert_eq!(
        sibling(name, FileRole::Normalized),
        Some("2023-06-01_XYZ-main_overlay.png".to_string())
    );
    assert_eq!(
        sibling(name, FileRole::Duplicate),
        Some("2023-06-01_XYZ-main_with_overlay.jpg".to_string())
    );
    assert_eq!(sibling(name, FileRole::Output), Some("2023-06-01_XYZ-main_temp.jpg".to_string()));
}

#[test]
fn names_of_the_files_of_a_video_task() {
    let name = "2023-06-01_XYZ-main.mp4";
    assert_eq!(
        sibling(name, FileRole::Duplicate),
        Some("2023-06-01_XYZ-main_with_overlay.mp4".to_string())
    );
    assert_eq!(sibling(name, FileRole::Output), Some("2023-06-01_XYZ-main_temp.mp4".to_string()));
}

#[test]
fn names_of_one_task_differ() {
    let roles = [
        FileRole::Main,
        FileRole::Overlay,
        FileRole::Normalized,
        FileRole::Duplicate,
        FileRole::Output,
    ];
    for name in ["2023-06-01_XYZ-main.jpg", "-main.mp4", "a-main.jpg-main.jpg"] {
        for (i, a) in roles.iter().enumerate() {
            for b in roles.iter().skip(i + 1) {
                assert_ne!(sibling(name, *a), sibling(name, *b));
            }
        }
    }
}

#[test]
fn file_that_is_no_main_file_has_no_overlay_name() {
    assert_eq!(sibling("clip.mp4", FileRole::Overlay), None);
    assert_eq!(sibling("clip.mp4", FileRole::Duplicate), Some("clip_with_overlay.mp4".to_string()));
    assert_eq!(sibling("clip", FileRole::Output), Some("clip_temp.".to_string()));
}

#[test]
fn tasks_of_files_with_different_stems_share_no_file() {
    let written = [FileRole::Main, FileRole::Normalized, FileRole::Duplicate, FileRole::Output];
    let names = [
        "a-main.jpg",
        "a-main_temp-main.jpg",
        "a-main_overlay-main.mp4",
        "a-main_with_overlay-main.jpg",
        "a-main-main.jpg",
        "b-main.mp4",
    ];
    for (i, first) in names.iter().enumerate() {
        for second in names.iter().skip(i + 1) {
            for a in written {
                for b in written {
                    assert_ne!(sibling(first, a), sibling(second, b), "{first} {second}");
                }
            }
        }
    }
}
