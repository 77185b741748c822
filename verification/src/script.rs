//! The run of a task, written out: which actions a task hands out, in
//! which order, for each way in which they can end.

use crate::policy::{Action, FileRole, OverlayMode, Phase, TaskState};
use crate::trace::{coherent, lemma_start, lemma_step, receiver, run, trace};
use vstd::prelude::*;

verus! {

/// How the actions of the overlay step end, one flag for each action whose
/// outcome matters.
pub struct Outcomes {
    /// The overlay is there.
    pub found: bool,
    /// The overlay was re-encoded.
    pub normalized: bool,
    /// The duplicate was made. It is asked for in copy mode only.
    pub duplicated: bool,
    /// The compositor succeeded.
    pub composed: bool,
    /// The output was moved into place.
    pub renamed: bool,
}

impl Outcomes {
    /// The overlay ends up on the file that receives it.
    pub open spec fn applied(self, mode: OverlayMode) -> bool {
        self.found && (mode == OverlayMode::Copy ==> self.duplicated) && self.composed
            && self.renamed
    }
}

/// The actions of the overlay step under `mode`, for a file whose name
/// admits an overlay: the probe; where the overlay is there, its
/// re-encoding; in copy mode the duplicate, and where that fails the
/// removal of the re-encoded overlay and nothing more; the compositor, on
/// the re-encoded overlay or, where there is none, on the overlay as it is;
/// the removal of the re-encoded overlay; then the move of the output into
/// place where the compositor succeeded, else the removal of the output and,
/// in copy mode, of the duplicate.
pub open spec fn overlay_step(mode: OverlayMode, o: Outcomes) -> Seq<Action> {
    let gone = Action::Remove { file: FileRole::Normalized };
    let compose = Action::Composite {
        base: receiver(mode),
        overlay: if o.normalized {
            FileRole::Normalized
        } else {
            FileRole::Overlay
        },
    };
    let end = if o.composed {
        seq![Action::Rename { to: receiver(mode) }]
    } else if mode == OverlayMode::Copy {
        seq![Action::Remove { file: FileRole::Output }, Action::Remove { file: FileRole::Duplicate }]
    } else {
        seq![Action::Remove { file: FileRole::Output }]
    };
    if !o.found {
        seq![Action::ProbeOverlay]
    } else if mode != OverlayMode::Copy {
        seq![Action::ProbeOverlay, Action::NormalizeOverlay, compose, gone] + end
    } else if !o.duplicated {
        seq![Action::ProbeOverlay, Action::NormalizeOverlay, Action::DuplicateMain, gone]
    } else {
        seq![Action::ProbeOverlay, Action::NormalizeOverlay, Action::DuplicateMain, compose, gone]
            + end
    }
}

/// The whole of a task: the metadata step where a record was found, the
/// overlay step where the mode wants overlays and the file's name admits
/// one, and the report.
pub open spec fn script(
    mode: OverlayMode,
    matched: bool,
    eligible: bool,
    written: bool,
    o: Outcomes,
) -> Seq<Action> {
    let first = if matched {
        seq![Action::WriteMetadata]
    } else {
        Seq::empty()
    };
    let second = if mode != OverlayMode::Ignore && eligible {
        overlay_step(mode, o)
    } else {
        Seq::empty()
    };
    let overlay_applied = mode != OverlayMode::Ignore && eligible && o.applied(mode);
    first + second + seq![Action::Finish { metadata_applied: matched && written, overlay_applied }]
}

/// How the actions of a run end, read off the outcomes that the task was
/// given: the outcome of the metadata writer comes first where a record
/// was found, and those of the overlay step follow in the order of its
/// actions.
pub open spec fn read(mode: OverlayMode, matched: bool, outcomes: Seq<bool>) -> Outcomes {
    let k = if matched {
        1int
    } else {
        0int
    };
    let c = if mode == OverlayMode::Copy {
        k + 3
    } else {
        k + 2
    };
    Outcomes {
        found: outcomes[k],
        normalized: outcomes[k + 1],
        duplicated: outcomes[k + 2],
        composed: outcomes[c],
        renamed: outcomes[c + 2],
    }
}

/// What follows the removal of the re-encoded overlay.
spec fn ending(mode: OverlayMode, metadata: bool, composed: bool, renamed: bool) -> Seq<Action> {
    if composed {
        seq![
            Action::Rename { to: receiver(mode) },
            Action::Finish { metadata_applied: metadata, overlay_applied: renamed },
        ]
    } else if mode == OverlayMode::Copy {
        seq![
            Action::Remove { file: FileRole::Output },
            Action::Remove { file: FileRole::Duplicate },
            Action::Finish { metadata_applied: metadata, overlay_applied: false },
        ]
    } else {
        seq![
            Action::Remove { file: FileRole::Output },
            Action::Finish { metadata_applied: metadata, overlay_applied: false },
        ]
    }
}

proof fn lemma_run_from_cleanup(s: TaskState, a: Action, outcomes: Seq<bool>)
    requires
        coherent(s, a),
        s.phase is Cleanup,
        outcomes.len() >= 3,
    ensures
        run(s, a, outcomes) =~= seq![a] + ending(
            s.mode,
            s.metadata,
            s.phase == (Phase::Cleanup { composed: true }),
            outcomes[1],
        ),
{
    reveal_with_fuel(run, 5);
}

/// What follows the re-encoding of the overlay.
spec fn working(mode: OverlayMode, metadata: bool, o: Outcomes) -> Seq<Action> {
    let gone = Action::Remove { file: FileRole::Normalized };
    let compose = Action::Composite {
        base: receiver(mode),
        overlay: if o.normalized {
            FileRole::Normalized
        } else {
            FileRole::Overlay
        },
    };
    if mode != OverlayMode::Copy {
        seq![compose, gone] + ending(mode, metadata, o.composed, o.renamed)
    } else if !o.duplicated {
        seq![
            Action::DuplicateMain,
            gone,
            Action::Finish { metadata_applied: metadata, overlay_applied: false },
        ]
    } else {
        seq![Action::DuplicateMain, compose, gone] + ending(mode, metadata, o.composed, o.renamed)
    }
}

proof fn lemma_run_from_normalize(s: TaskState, a: Action, outcomes: Seq<bool>)
    requires
        coherent(s, a),
        s.phase is Normalize,
        outcomes.len() >= 6,
    ensures
        run(s, a, outcomes) =~= seq![a] + working(
            s.mode,
            s.metadata,
            Outcomes {
                found: true,
                normalized: outcomes[0],
                duplicated: outcomes[1],
                composed: if s.mode == OverlayMode::Copy {
                    outcomes[2]
                } else {
                    outcomes[1]
                },
                renamed: if s.mode == OverlayMode::Copy {
                    outcomes[4]
                } else {
                    outcomes[3]
                },
            },
        ),
{
    let o1 = outcomes.drop_first();
    let o2 = o1.drop_first();
    let o3 = o2.drop_first();
    let (s1, a1) = s.next(outcomes[0]);
    lemma_step(s, a, outcomes[0]);
    if s.mode == OverlayMode::Copy {
        let (s2, a2) = s1.next(o1[0]);
        lemma_step(s1, a1, o1[0]);
        if o1[0] {
            let (s3, a3) = s2.next(o2[0]);
            lemma_step(s2, a2, o2[0]);
            lemma_run_from_cleanup(s3, a3, o3);
            assert(run(s2, a2, o2) =~= seq![a2] + run(s3, a3, o3)) by {
                reveal_with_fuel(run, 2);
            }
            assert(run(s1, a1, o1) =~= seq![a1] + run(s2, a2, o2)) by {
                reveal_with_fuel(run, 2);
            }
            assert(run(s, a, outcomes) =~= seq![a] + run(s1, a1, o1)) by {
                reveal_with_fuel(run, 2);
            }
        } else {
            assert(run(s1, a1, o1) =~= seq![
                a1,
                Action::Remove { file: FileRole::Normalized },
                Action::Finish { metadata_applied: s.metadata, overlay_applied: false },
            ]) by {
                reveal_with_fuel(run, 4);
            }
            assert(run(s, a, outcomes) =~= seq![a] + run(s1, a1, o1)) by {
                reveal_with_fuel(run, 2);
            }
        }
    } else {
        let (s2, a2) = s1.next(o1[0]);
        lemma_step(s1, a1, o1[0]);
        lemma_run_from_cleanup(s2, a2, o2);
        assert(run(s1, a1, o1) =~= seq![a1] + run(s2, a2, o2)) by {
            reveal_with_fuel(run, 2);
        }
        assert(run(s, a, outcomes) =~= seq![a] + run(s1, a1, o1)) by {
            reveal_with_fuel(run, 2);
        }
    }
}

proof fn lemma_run_from_probe(s: TaskState, a: Action, outcomes: Seq<bool>)
    requires
        coherent(s, a),
        s.phase is Probe,
        outcomes.len() >= 7,
    ensures
        run(s, a, outcomes) =~= overlay_step(s.mode, read(s.mode, false, outcomes)) + seq![
            Action::Finish {
                metadata_applied: s.metadata,
                overlay_applied: read(s.mode, false, outcomes).applied(s.mode),
            },
        ],
{
    let o1 = outcomes.drop_first();
    let (s1, a1) = s.next(outcomes[0]);
    lemma_step(s, a, outcomes[0]);
    if outcomes[0] {
        lemma_run_from_normalize(s1, a1, o1);
        assert(run(s, a, outcomes) =~= seq![a] + run(s1, a1, o1)) by {
            reveal_with_fuel(run, 2);
        }
    } else {
        assert(run(s, a, outcomes) =~= seq![a, a1]) by {
            reveal_with_fuel(run, 3);
        }
    }
}

/// A task does what its script says, and nothing else: given outcomes
/// enough, its run is the script for the way in which its actions ended.
pub proof fn lemma_run_is_script(
    mode: OverlayMode,
    matched: bool,
    eligible: bool,
    outcomes: Seq<bool>,
)
    requires
        outcomes.len() >= 8,
    ensures
        trace(mode, matched, eligible, outcomes) == script(
            mode,
            matched,
            eligible,
            outcomes[0],
            read(mode, matched, outcomes),
        ),
{
    lemma_start(mode, matched, eligible);
    let (s, a) = TaskState::start(mode, matched, eligible);
    let t = trace(mode, matched, eligible, outcomes);
    if matched {
        let o1 = outcomes.drop_first();
        let (s1, a1) = s.next(outcomes[0]);
        lemma_step(s, a, outcomes[0]);
        assert(t =~= seq![a] + run(s1, a1, o1)) by {
            reveal_with_fuel(run, 2);
        }
        if mode != OverlayMode::Ignore && eligible {
            lemma_run_from_probe(s1, a1, o1);
        } else {
            assert(run(s1, a1, o1) =~= seq![a1]) by {
                reveal_with_fuel(run, 2);
            }
        }
    } else if mode != OverlayMode::Ignore && eligible {
        lemma_run_from_probe(s, a, outcomes);
    } else {
        assert(t =~= seq![a]) by {
            reveal_with_fuel(run, 2);
        }
    }
}

} // verus!
