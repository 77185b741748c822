//! The overlay policy of one media file, as a state machine.
//!
//! A task decides; it touches no file. It hands out one [`Action`] at a
//! time, the caller performs it and reports whether it succeeded, and the
//! task answers with the next action until it hands out `Finish`.

use vstd::prelude::*;

verus! {

/// What is done with an overlay that lies beside a media file.
#[derive(Clone, Copy, Debug, PartialEq, Eq, Structural)]
pub enum OverlayMode {
    /// The overlay is rendered onto the media file itself.
    Overwrite,
    /// The overlay is rendered onto a duplicate; the media file stays as it is.
    Copy,
    /// Overlays are left alone.
    Ignore,
}

/// The files that a task names. All of them lie in one directory.
#[derive(Clone, Copy, Debug, PartialEq, Eq, Structural)]
pub enum FileRole {
    /// The media file that the task is about.
    Main,
    /// The overlay as it was exported, beside the media file.
    Overlay,
    /// The overlay re-encoded as a true PNG: a temporary file.
    Normalized,
    /// The duplicate of the media file that receives the overlay in copy mode.
    Duplicate,
    /// What the compositor writes: a temporary file.
    Output,
}

/// One request to the caller.
#[derive(Clone, Copy, Debug, PartialEq, Eq, Structural)]
pub enum Action {
    /// Stamp `Main` with the record's time and place.
    WriteMetadata,
    /// Report whether `Overlay` exists.
    ProbeOverlay,
    /// Decode `Overlay`, whatever its encoding, and write it to `Normalized` as PNG.
    NormalizeOverlay,
    /// Copy `Main` to `Duplicate`.
    DuplicateMain,
    /// Render `overlay` on top of `base` and write the result to `Output`.
    Composite { base: FileRole, overlay: FileRole },
    /// Delete `file`. Whether that succeeds changes nothing.
    Remove { file: FileRole },
    /// Move `Output` over `to`.
    Rename { to: FileRole },
    /// The task is over; the two flags say what was applied.
    Finish { metadata_applied: bool, overlay_applied: bool },
}

/// Where a task stands: the action whose outcome it waits for.
#[derive(Clone, Copy, Debug, PartialEq, Eq, Structural)]
pub enum Phase {
    Metadata,
    Probe,
    Normalize,
    Duplicate,
    /// `Normalized` is being removed because the duplicate could not be made.
    Abort,
    Composite,
    /// `Normalized` is being removed after the compositor ran.
    Cleanup { composed: bool },
    Rename,
    DropOutput,
    DropDuplicate,
    Finished,
}

/// The state of one file's task.
#[derive(Clone, Copy, Debug, PartialEq, Eq, Structural)]
pub struct TaskState {
    pub mode: OverlayMode,
    /// The file's name is that of a main file, which may have an overlay beside it.
    pub eligible: bool,
    pub phase: Phase,
    /// The metadata writer ran and succeeded.
    pub metadata: bool,
    /// The overlay was re-encoded, so the compositor reads `Normalized`.
    pub normalized: bool,
    /// The composited output was moved into place.
    pub overlay: bool,
}

impl Action {
    /// The action writes, replaces or deletes `file`.
    pub open spec fn touches(self, file: FileRole) -> bool {
        match self {
            Action::WriteMetadata => file == FileRole::Main,
            Action::ProbeOverlay => false,
            Action::NormalizeOverlay => file == FileRole::Normalized,
            Action::DuplicateMain => file == FileRole::Duplicate,
            Action::Composite { .. } => file == FileRole::Output,
            Action::Remove { file: f } => file == f,
            Action::Rename { to } => file == to || file == FileRole::Output,
            Action::Finish { .. } => false,
        }
    }

    /// The action belongs to the overlay step.
    pub open spec fn is_overlay_work(self) -> bool {
        !(self is WriteMetadata) && !(self is Finish)
    }
}

impl TaskState {
    /// The file that receives the overlay.
    pub open spec fn target(self) -> FileRole {
        if self.mode == OverlayMode::Copy {
            FileRole::Duplicate
        } else {
            FileRole::Main
        }
    }

    /// The overlay file that the compositor is given.
    pub open spec fn overlay_source(self) -> FileRole {
        if self.normalized {
            FileRole::Normalized
        } else {
            FileRole::Overlay
        }
    }

    pub open spec fn finish(self) -> (TaskState, Action) {
        (
            TaskState { phase: Phase::Finished, ..self },
            Action::Finish { metadata_applied: self.metadata, overlay_applied: self.overlay },
        )
    }

    /// What follows the metadata step: the probe for an overlay where the
    /// mode wants overlays and the file's name admits one, else the end.
    pub open spec fn after_metadata(self) -> (TaskState, Action) {
        if self.mode != OverlayMode::Ignore && self.eligible {
            (TaskState { phase: Phase::Probe, ..self }, Action::ProbeOverlay)
        } else {
            self.finish()
        }
    }

    /// The first state and action of a task. `matched` says that a record was
    /// found for the file; `eligible` that its name is that of a main file,
    /// which may have an overlay beside it.
    pub open spec fn start(mode: OverlayMode, matched: bool, eligible: bool) -> (
        TaskState,
        Action,
    ) {
        let fresh = TaskState {
            mode,
            eligible,
            phase: Phase::Metadata,
            metadata: false,
            normalized: false,
            overlay: false,
        };
        if matched {
            (fresh, Action::WriteMetadata)
        } else {
            fresh.after_metadata()
        }
    }

    /// The state and the action that follow when the pending action ended
    /// with `outcome`.
    pub open spec fn next(self, outcome: bool) -> (TaskState, Action) {
        match self.phase {
            Phase::Metadata => TaskState { metadata: outcome, ..self }.after_metadata(),
            Phase::Probe => if outcome {
                (TaskState { phase: Phase::Normalize, ..self }, Action::NormalizeOverlay)
            } else {
                self.finish()
            },
            Phase::Normalize => {
                let s = TaskState { normalized: outcome, ..self };
                if self.mode == OverlayMode::Copy {
                    (TaskState { phase: Phase::Duplicate, ..s }, Action::DuplicateMain)
                } else {
                    (
                        TaskState { phase: Phase::Composite, ..s },
                        Action::Composite { base: s.target(), overlay: s.overlay_source() },
                    )
                }
            },
            Phase::Duplicate => if outcome {
                (
                    TaskState { phase: Phase::Composite, ..self },
                    Action::Composite { base: self.target(), overlay: self.overlay_source() },
                )
            } else {
                (
                    TaskState { phase: Phase::Abort, ..self },
                    Action::Remove { file: FileRole::Normalized },
                )
            },
            Phase::Abort => self.finish(),
            Phase::Composite => (
                TaskState { phase: Phase::Cleanup { composed: outcome }, ..self },
                Action::Remove { file: FileRole::Normalized },
            ),
            Phase::Cleanup { composed } => if composed {
                (TaskState { phase: Phase::Rename, ..self }, Action::Rename { to: self.target() })
            } else {
                (
                    TaskState { phase: Phase::DropOutput, ..self },
                    Action::Remove { file: FileRole::Output },
                )
            },
            Phase::Rename => TaskState { overlay: outcome, ..self }.finish(),
            Phase::DropOutput => if self.mode == OverlayMode::Copy {
                (
                    TaskState { phase: Phase::DropDuplicate, ..self },
                    Action::Remove { file: FileRole::Duplicate },
                )
            } else {
                self.finish()
            },
            Phase::DropDuplicate => self.finish(),
            Phase::Finished => self.finish(),
        }
    }

    /// Begins the task of one file.
    pub fn begin(mode: OverlayMode, matched: bool, eligible: bool) -> (r: (TaskState, Action))
        ensures
            r == TaskState::start(mode, matched, eligible),
    {
        let fresh = TaskState {
            mode,
            eligible,
            phase: Phase::Metadata,
            metadata: false,
            normalized: false,
            overlay: false,
        };
        if matched {
            (fresh, Action::WriteMetadata)
        } else {
            fresh.proceed()
        }
    }

    /// Takes the outcome of the pending action and hands out the next one.
    pub fn advance(&mut self, outcome: bool) -> (action: Action)
        ensures
            (*final(self), action) == old(self).next(outcome),
    {
        let (state, action) = self.step(outcome);
        *self = state;
        action
    }

    /// The task has handed out `Finish`.
    pub fn is_finished(&self) -> (r: bool)
        ensures
            r == (self.phase == Phase::Finished),
    {
        match self.phase {
            Phase::Finished => true,
            _ => false,
        }
    }

    fn end(self) -> (r: (TaskState, Action))
        ensures
            r == self.finish(),
    {
        (
            TaskState { phase: Phase::Finished, ..self },
            Action::Finish { metadata_applied: self.metadata, overlay_applied: self.overlay },
        )
    }

    fn proceed(self) -> (r: (TaskState, Action))
        ensures
            r == self.after_metadata(),
    {
        let wanted = match self.mode {
            OverlayMode::Ignore => false,
            _ => true,
        };
        if wanted && self.eligible {
            (TaskState { phase: Phase::Probe, ..self }, Action::ProbeOverlay)
        } else {
            self.end()
        }
    }

    fn receiver(self) -> (r: FileRole)
        ensures
            r == self.target(),
    {
        match self.mode {
            OverlayMode::Copy => FileRole::Duplicate,
            _ => FileRole::Main,
        }
    }

    fn compose(self) -> (r: (TaskState, Action))
        ensures
            r == (
                TaskState { phase: Phase::Composite, ..self },
                Action::Composite { base: self.target(), overlay: self.overlay_source() },
            ),
    {
        let overlay = if self.normalized {
            FileRole::Normalized
        } else {
            FileRole::Overlay
        };
        (
            TaskState { phase: Phase::Composite, ..self },
            Action::Composite { base: self.receiver(), overlay },
        )
    }

    fn step(self, outcome: bool) -> (r: (TaskState, Action))
        ensures
            r == self.next(outcome),
    {
        let copying = match self.mode {
            OverlayMode::Copy => true,
            _ => false,
        };
        match self.phase {
            Phase::Metadata => TaskState { metadata: outcome, ..self }.proceed(),
            Phase::Probe => {
                if outcome {
                    (TaskState { phase: Phase::Normalize, ..self }, Action::NormalizeOverlay)
                } else {
                    self.end()
                }
            },
            Phase::Normalize => {
                let s = TaskState { normalized: outcome, ..self };
                if copying {
                    (TaskState { phase: Phase::Duplicate, ..s }, Action::DuplicateMain)
                } else {
                    s.compose()
                }
            },
            Phase::Duplicate => {
                if outcome {
                    self.compose()
                } else {
                    (
                        TaskState { phase: Phase::Abort, ..self },
                        Action::Remove { file: FileRole::Normalized },
                    )
                }
            },
            Phase::Abort => self.end(),
            Phase::Composite => (
                TaskState { phase: Phase::Cleanup { composed: outcome }, ..self },
                Action::Remove { file: FileRole::Normalized },
            ),
            Phase::Cleanup { composed } => {
                if composed {
                    (
                        TaskState { phase: Phase::Rename, ..self },
                        Action::Rename { to: self.receiver() },
                    )
                } else {
                    (
                        TaskState { phase: Phase::DropOutput, ..self },
                        Action::Remove { file: FileRole::Output },
                    )
                }
            },
            Phase::Rename => TaskState { overlay: outcome, ..self }.end(),
            Phase::DropOutput => {
                if copying {
                    (
                        TaskState { phase: Phase::DropDuplicate, ..self },
                        Action::Remove { file: FileRole::Duplicate },
                    )
                } else {
                    self.end()
                }
            },
            Phase::DropDuplicate => self.end(),
            Phase::Finished => self.end(),
        }
    }
}

} // verus!
