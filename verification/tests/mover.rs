use snapback::mover::{count_moved, moves_for, Move};
use snapback::policy::OverlayMode;

fn required(name: &str) -> Move {
    Move { name: name.to_string(), only_if_present: false }
}

fn optional(name: &str) -> Move {
    Move { name: name.to_string(), only_if_present: true }
}

#[test]
fn media_file_is_moved_under_its_own_name() {
    assert_eq!(moves_for("a-main.jpg", OverlayMode::Overwrite), vec![required("a-main.jpg")]);
    assert_eq!(moves_for("a-main.jpg", OverlayMode::Ignore), vec![required("a-main.jpg")]);
}

#[test]
fn copy_mode_moves_the_duplicate_too_if_there_is_one() {
    assert_eq!(
        moves_for("a-main.jpg", OverlayMode::Copy),
        vec![required("a-main.jpg"), optional("a-main_with_overlay.jpg")]
    );
    assert_eq!(
        moves_for("b.mp4", OverlayMode::Copy),
        vec![required("b.mp4"), optional("b_with_overlay.mp4")]
    );
}

#[test]
fn moved_files_are_counted() {
    assert_eq!(count_moved(&vec![]), 0);
    assert_eq!(count_moved(&vec![true]), 1);
    assert_eq!(count_moved(&vec![false]), 0);
    assert_eq!(count_moved(&vec![true, false, true, true, false]), 3);
}

#[test]
fn failed_move_takes_nothing_from_the_others() {
    assert_eq!(count_moved(&vec![false, true, true]), 2);
    assert_eq!(count_moved(&vec![true, true, false]), 2);
}
