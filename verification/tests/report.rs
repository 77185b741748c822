use snapback::discovery::discovery_patterns;
use snapback::report::summary_line;

#[test]
fn summary_names_what_was_applied() {
    assert_eq!(
        summary_line(true, true, "a-main.jpg"),
        Some("Added EXIF data and overlay to a-main.jpg".to_string())
    );
    assert_eq!(
        summary_line(true, false, "a-main.jpg"),
        Some("Added EXIF data to a-main.jpg".to_string())
    );
    assert_eq!(
        summary_line(false, true, "a-main.jpg"),
        Some("Added overlay to a-main.jpg".to_string())
    );
}

#[test]
fn nothing_applied_is_not_reported() {
    assert_eq!(summary_line(false, false, "a-main.jpg"), None);
}

#[test]
fn patterns_for_images_and_videos_below_the_prefix() {
    assert_eq!(discovery_patterns("memories"), vec!["memories*/**/*.jpg", "memories*/**/*.mp4"]);
    assert_eq!(discovery_patterns(""), vec!["*/**/*.jpg", "*/**/*.mp4"]);
}
