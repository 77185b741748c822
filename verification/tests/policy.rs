use snapback::policy::{Action, FileRole, OverlayMode, Phase, TaskState};

const MODES: [OverlayMode; 3] = [OverlayMode::Overwrite, OverlayMode::Copy, OverlayMode::Ignore];

fn run(mode: OverlayMode, matched: bool, eligible: bool, outcomes: &[bool]) -> Vec<Action> {
    let (mut state, mut action) = TaskState::begin(mode, matched, eligible);
    let mut trace = vec![action];
    let mut next = outcomes.iter();
    while !matches!(action, Action::Finish { .. }) {
        match next.next() {
            Some(outcome) => action = state.advance(*outcome),
            None => return trace,
        }
        trace.push(action);
    }
    assert!(state.is_finished());
    trace
}

fn all_runs() -> Vec<(OverlayMode, bool, bool, Vec<bool>, Vec<Action>)> {
    let mut runs = Vec::new();
    for mode in MODES {
        for flags in 0..4u32 {
            let (matched, eligible) = (flags & 1 == 1, flags & 2 == 2);
            for bits in 0..256u32 {
                let outcomes: Vec<bool> = (0..8).map(|i| bits >> i & 1 == 1).collect();
                let trace = run(mode, matched, eligible, &outcomes);
                runs.push((mode, matched, eligible, outcomes, trace));
            }
        }
    }
    runs
}

fn finish(metadata_applied: bool, overlay_applied: bool) -> Action {
    Action::Finish { metadata_applied, overlay_applied }
}

fn remove(file: FileRole) -> Action {
    Action::Remove { file }
}

#[test]
fn overwrite_mode_renders_onto_the_media_file() {
    assert_eq!(
        run(OverlayMode::Overwrite, true, true, &[true, true, true, true, true, true]),
        vec![
            Action::WriteMetadata,
            Action::ProbeOverlay,
            Action::NormalizeOverlay,
            Action::Composite { base: FileRole::Main, overlay: FileRole::Normalized },
            remove(FileRole::Normalized),
            Action::Rename { to: FileRole::Main },
            finish(true, true),
        ]
    );
}

#[test]
fn copy_mode_renders_onto_a_duplicate() {
    assert_eq!(
        run(OverlayMode::Copy, true, true, &[true, true, true, true, true, true, true]),
        vec![
            Action::WriteMetadata,
            Action::ProbeOverlay,
            Action::NormalizeOverlay,
            Action::DuplicateMain,
            Action::Composite { base: FileRole::Duplicate, overlay: FileRole::Normalized },
            remove(FileRole::Normalized),
            Action::Rename { to: FileRole::Duplicate },
            finish(true, true),
        ]
    );
}

#[test]
fn ignore_mode_stops_after_the_metadata() {
    assert_eq!(
        run(OverlayMode::Ignore, true, true, &[true]),
        vec![Action::WriteMetadata, finish(true, false)]
    );
    assert_eq!(run(OverlayMode::Ignore, false, true, &[]), vec![finish(false, false)]);
}

#[test]
fn file_without_record_still_gets_its_overlay() {
    assert_eq!(
        run(OverlayMode::Overwrite, false, true, &[true, true, true, true, true]),
        vec![
            Action::ProbeOverlay,
            Action::NormalizeOverlay,
            Action::Composite { base: FileRole::Main, overlay: FileRole::Normalized },
            remove(FileRole::Normalized),
            Action::Rename { to: FileRole::Main },
            finish(false, true),
        ]
    );
}

#[test]
fn failed_metadata_writer_does_not_stop_the_overlay() {
    let trace = run(OverlayMode::Overwrite, true, true, &[false, true, true, true, true, true]);
    assert_eq!(trace[1], Action::ProbeOverlay);
    assert_eq!(trace.last(), Some(&finish(false, true)));
}

#[test]
fn file_without_overlay_gets_metadata_only() {
    assert_eq!(
        run(OverlayMode::Overwrite, true, true, &[true, false]),
        vec![Action::WriteMetadata, Action::ProbeOverlay, finish(true, false)]
    );
    assert_eq!(
        run(OverlayMode::Copy, true, true, &[true, false]),
        vec![Action::WriteMetadata, Action::ProbeOverlay, finish(true, false)]
    );
}

#[test]
fn file_that_is_no_main_file_is_not_probed() {
    assert_eq!(
        run(OverlayMode::Overwrite, true, false, &[true]),
        vec![Action::WriteMetadata, finish(true, false)]
    );
    assert_eq!(run(OverlayMode::Copy, false, false, &[]), vec![finish(false, false)]);
}

#[test]
fn overlay_that_cannot_be_decoded_is_handed_on_as_it_is() {
    assert_eq!(
        run(OverlayMode::Overwrite, false, true, &[true, false, true, true, true]),
        vec![
            Action::ProbeOverlay,
            Action::NormalizeOverlay,
            Action::Composite { base: FileRole::Main, overlay: FileRole::Overlay },
            remove(FileRole::Normalized),
            Action::Rename { to: FileRole::Main },
            finish(false, true),
        ]
    );
}

#[test]
fn failed_compositor_leaves_no_output_in_overwrite_mode() {
    assert_eq!(
        run(OverlayMode::Overwrite, false, true, &[true, true, false, true, true]),
        vec![
            Action::ProbeOverlay,
            Action::NormalizeOverlay,
            Action::Composite { base: FileRole::Main, overlay: FileRole::Normalized },
            remove(FileRole::Normalized),
            remove(FileRole::Output),
            finish(false, false),
        ]
    );
}

#[test]
fn failed_compositor_leaves_no_duplicate_in_copy_mode() {
    assert_eq!(
        run(OverlayMode::Copy, false, true, &[true, true, true, false, true, true, true]),
        vec![
            Action::ProbeOverlay,
            Action::NormalizeOverlay,
            Action::DuplicateMain,
            Action::Composite { base: FileRole::Duplicate, overlay: FileRole::Normalized },
            remove(FileRole::Normalized),
            remove(FileRole::Output),
            remove(FileRole::Duplicate),
            finish(false, false),
        ]
    );
}

#[test]
fn failed_duplicate_ends_the_task_after_the_cleanup() {
    assert_eq!(
        run(OverlayMode::Copy, true, true, &[true, true, true, false, true]),
        vec![
            Action::WriteMetadata,
            Action::ProbeOverlay,
            Action::NormalizeOverlay,
            Action::DuplicateMain,
            remove(FileRole::Normalized),
            finish(true, false),
        ]
    );
}

#[test]
fn failed_rename_reports_no_overlay() {
    let trace = run(OverlayMode::Overwrite, true, true, &[true, true, true, true, true, false]);
    assert_eq!(trace[5], Action::Rename { to: FileRole::Main });
    assert_eq!(trace[6], finish(true, false));
}

#[test]
fn outcome_of_a_removal_changes_nothing() {
    for cleanup in [false, true] {
        assert_eq!(
            run(OverlayMode::Overwrite, false, true, &[true, true, true, cleanup, true]).last(),
            Some(&finish(false, true))
        );
    }
}

#[test]
fn finished_task_stays_finished() {
    let (mut state, action) = TaskState::begin(OverlayMode::Ignore, false, false);
    assert_eq!(action, finish(false, false));
    assert!(state.is_finished());
    assert_eq!(state.advance(true), finish(false, false));
    assert_eq!(state.phase, Phase::Finished);
}

#[test]
fn every_task_ends_within_eight_outcomes() {
    for (_, _, _, _, trace) in all_runs() {
        assert!(trace.len() <= 9);
        assert!(matches!(trace.last(), Some(Action::Finish { .. })));
        let finishes = trace.iter().filter(|a| matches!(a, Action::Finish { .. })).count();
        assert_eq!(finishes, 1);
    }
}

#[test]
fn metadata_step_comes_first_and_once() {
    for (_, matched, _, _, trace) in all_runs() {
        assert_eq!(trace[0] == Action::WriteMetadata, matched);
        assert!(trace[1..].iter().all(|a| *a != Action::WriteMetadata));
    }
}

#[test]
fn copy_mode_never_touches_the_media_file_after_the_metadata() {
    for (mode, _, _, _, trace) in all_runs() {
        if mode != OverlayMode::Copy {
            continue;
        }
        for action in &trace {
            match action {
                Action::Composite { base, .. } => assert_eq!(*base, FileRole::Duplicate),
                Action::Rename { to } => assert_eq!(*to, FileRole::Duplicate),
                Action::Remove { file } => assert_ne!(*file, FileRole::Main),
                _ => {}
            }
        }
    }
}

#[test]
fn overwrite_mode_never_makes_a_duplicate() {
    for (mode, _, _, _, trace) in all_runs() {
        if mode != OverlayMode::Overwrite {
            continue;
        }
        for action in &trace {
            match action {
                Action::DuplicateMain => panic!("duplicate in overwrite mode"),
                Action::Composite { base, .. } => assert_eq!(*base, FileRole::Main),
                Action::Rename { to } => assert_eq!(*to, FileRole::Main),
                Action::Remove { file } => assert_ne!(*file, FileRole::Duplicate),
                _ => {}
            }
        }
    }
}

#[test]
fn ignore_mode_does_no_overlay_work() {
    for (mode, _, _, _, trace) in all_runs() {
        if mode == OverlayMode::Ignore {
            assert!(trace
                .iter()
                .all(|a| matches!(a, Action::WriteMetadata | Action::Finish { .. })));
        }
    }
}

#[test]
fn normalized_overlay_is_always_removed() {
    for (_, _, _, _, trace) in all_runs() {
        let made = trace.iter().position(|a| *a == Action::NormalizeOverlay);
        let removed = trace.iter().rposition(|a| *a == remove(FileRole::Normalized));
        match made {
            Some(i) => assert!(removed.unwrap() > i),
            None => assert_eq!(removed, None),
        }
    }
}

#[test]
fn report_says_what_was_applied() {
    for (_, matched, _, outcomes, trace) in all_runs() {
        let renamed = trace
            .iter()
            .zip(outcomes.iter())
            .any(|(a, ok)| matches!(a, Action::Rename { .. }) && *ok);
        assert_eq!(trace.last(), Some(&finish(matched && outcomes[0], renamed)));
    }
}

#[test]
fn applied_overlay_was_composed_onto_the_receiving_file() {
    for (mode, _, _, outcomes, trace) in all_runs() {
        if let Some(Action::Finish { overlay_applied: true, .. }) = trace.last() {
            let receiver =
                if mode == OverlayMode::Copy { FileRole::Duplicate } else { FileRole::Main };
            let composed = trace
                .iter()
                .zip(outcomes.iter())
                .position(|(a, ok)| matches!(a, Action::Composite { base, .. } if *base == receiver) && *ok)
                .unwrap();
            let renamed = trace.iter().position(|a| *a == Action::Rename { to: receiver }).unwrap();
            assert!(composed < renamed);
        }
    }
}

fn script(mode: OverlayMode, matched: bool, eligible: bool, outcomes: &[bool]) -> Vec<Action> {
    let k = if matched { 1 } else { 0 };
    let c = if mode == OverlayMode::Copy { k + 3 } else { k + 2 };
    let (found, normalized, duplicated) = (outcomes[k], outcomes[k + 1], outcomes[k + 2]);
    let (composed, renamed) = (outcomes[c], outcomes[c + 2]);
    let receiver = if mode == OverlayMode::Copy { FileRole::Duplicate } else { FileRole::Main };
    let source = if normalized { FileRole::Normalized } else { FileRole::Overlay };
    let mut actions = Vec::new();
    let mut applied = false;
    if matched {
        actions.push(Action::WriteMetadata);
    }
    if mode != OverlayMode::Ignore && eligible {
        actions.push(Action::ProbeOverlay);
        if found {
            actions.push(Action::NormalizeOverlay);
            if mode == OverlayMode::Copy {
                actions.push(Action::DuplicateMain);
            }
            if mode == OverlayMode::Copy && !duplicated {
                actions.push(remove(FileRole::Normalized));
            } else {
                actions.push(Action::Composite { base: receiver, overlay: source });
                actions.push(remove(FileRole::Normalized));
                if composed {
                    actions.push(Action::Rename { to: receiver });
                    applied = renamed;
                } else {
                    actions.push(remove(FileRole::Output));
                    if mode == OverlayMode::Copy {
                        actions.push(remove(FileRole::Duplicate));
                    }
                }
            }
        }
    }
    actions.push(finish(matched && outcomes[0], applied));
    actions
}

#[test]
fn every_run_is_the_script_of_its_outcomes() {
    for (mode, matched, eligible, outcomes, trace) in all_runs() {
        assert_eq!(trace, script(mode, matched, eligible, &outcomes));
    }
}
