//! What the actions of a task do to the files beside a media file, and
//! what therefore holds of these files after every run.
//!
//! The tools that perform the actions are not part of the library. What is
//! taken for granted of them is written down in [`performed`]; the rest is
//! proved from it.

use crate::policy::{Action, FileRole, OverlayMode, Phase, TaskState};
use crate::trace::{
    coherent, complete, composed_at, lemma_run_shape, lemma_start, lemma_step, receiver, run, trace,
};
use vstd::prelude::*;

verus! {

/// What a directory holds under each of the names of a task: the bytes of
/// the file, or nothing where there is no such file.
pub struct Files {
    pub main: Option<Seq<u8>>,
    pub overlay: Option<Seq<u8>>,
    pub normalized: Option<Seq<u8>>,
    pub duplicate: Option<Seq<u8>>,
    pub output: Option<Seq<u8>>,
}

impl Files {
    /// What the directory holds for `role`.
    pub open spec fn at(self, role: FileRole) -> Option<Seq<u8>> {
        match role {
            FileRole::Main => self.main,
            FileRole::Overlay => self.overlay,
            FileRole::Normalized => self.normalized,
            FileRole::Duplicate => self.duplicate,
            FileRole::Output => self.output,
        }
    }
}

/// What is taken for granted of the one who performs an action: it leaves
/// alone every file that the action does not touch; the probe tells whether
/// the overlay is there; a duplicate that was made holds what the media file
/// holds; a compositor that succeeded has written its output; a removal
/// leaves no file behind; and a move that succeeded has put the output, and
/// nothing else, in the place of its target.
pub open spec fn performed(before: Files, action: Action, outcome: bool, after: Files) -> bool {
    &&& forall|role: FileRole| !action.touches(role) ==> after.at(role) == before.at(role)
    &&& match action {
        Action::ProbeOverlay => outcome == before.overlay is Some,
        Action::DuplicateMain => outcome ==> after.duplicate == before.main,
        Action::Composite { .. } => outcome ==> after.output is Some,
        Action::Remove { file } => after.at(file) is None,
        Action::Rename { to } => outcome ==> after.at(to) == before.output && after.output is None,
        _ => true,
    }
}

/// The step at index `i` of a run was performed: it led from `dirs[i]` to
/// `dirs[i + 1]`.
pub open spec fn step_performed(
    t: Seq<Action>,
    outcomes: Seq<bool>,
    dirs: Seq<Files>,
    i: int,
) -> bool {
    performed(dirs[i], t[i], outcomes[i], dirs[i + 1])
}

/// `dirs` is what the directory held during the run `t`: `dirs[i]` before
/// the action at index `i`, and the last of them when the task was over.
pub open spec fn history(t: Seq<Action>, outcomes: Seq<bool>, dirs: Seq<Files>) -> bool {
    &&& dirs.len() == t.len()
    &&& forall|i: int| 0 <= i < t.len() - 1 ==> #[trigger] step_performed(t, outcomes, dirs, i)
}

/// What remains of a history after its first step.
proof fn lemma_history_rest(
    s: TaskState,
    a: Action,
    outcomes: Seq<bool>,
    dirs: Seq<Files>,
)
    requires
        coherent(s, a),
        history(run(s, a, outcomes), outcomes, dirs),
        !(a is Finish),
        outcomes.len() > 0,
    ensures
        run(s, a, outcomes) == seq![a] + run(
            s.next(outcomes[0]).0,
            s.next(outcomes[0]).1,
            outcomes.drop_first(),
        ),
        performed(dirs[0], a, outcomes[0], dirs[1]),
        history(
            run(s.next(outcomes[0]).0, s.next(outcomes[0]).1, outcomes.drop_first()),
            outcomes.drop_first(),
            dirs.drop_first(),
        ),
        dirs.drop_first().last() == dirs.last(),
        dirs.drop_first()[0] == dirs[1],
        coherent(s.next(outcomes[0]).0, s.next(outcomes[0]).1),
        s.next(outcomes[0]).0.mode == s.mode,
        complete(run(s, a, outcomes)) ==> complete(
            run(s.next(outcomes[0]).0, s.next(outcomes[0]).1, outcomes.drop_first()),
        ),
{
    let t = run(s, a, outcomes);
    let tail = outcomes.drop_first();
    let (s1, a1) = s.next(outcomes[0]);
    lemma_step(s, a, outcomes[0]);
    lemma_run_shape(s1, a1, tail);
    let rest = run(s1, a1, tail);
    let later = dirs.drop_first();
    assert(step_performed(t, outcomes, dirs, 0));
    assert forall|i: int| 0 <= i < rest.len() - 1 implies #[trigger] step_performed(
        rest,
        tail,
        later,
        i,
    ) by {
        assert(step_performed(t, outcomes, dirs, i + 1));
    }
}

proof fn lemma_run_keeps_main(s: TaskState, a: Action, outcomes: Seq<bool>, dirs: Seq<Files>)
    requires
        coherent(s, a),
        s.mode == OverlayMode::Copy,
        !(s.phase is Metadata),
        history(run(s, a, outcomes), outcomes, dirs),
    ensures
        forall|i: int| 0 <= i < dirs.len() ==> (#[trigger] dirs[i]).main == dirs[0].main,
    decreases outcomes.len(),
{
    if !(a is Finish) && outcomes.len() > 0 {
        lemma_history_rest(s, a, outcomes, dirs);
        let (s1, a1) = s.next(outcomes[0]);
        let later = dirs.drop_first();
        lemma_run_keeps_main(s1, a1, outcomes.drop_first(), later);
        assert(!a.touches(FileRole::Main));
        assert forall|i: int| 0 <= i < dirs.len() implies (#[trigger] dirs[i]).main
            == dirs[0].main by {
            if i > 0 {
                assert(later[i - 1] == dirs[i]);
            }
        }
    }
}

/// Copy mode leaves the media file as the metadata step left it: from then
/// on the directory holds the same bytes under its name, whatever becomes
/// of the overlay.
pub proof fn lemma_copy_mode_keeps_main(
    matched: bool,
    eligible: bool,
    outcomes: Seq<bool>,
    dirs: Seq<Files>,
)
    requires
        history(trace(OverlayMode::Copy, matched, eligible, outcomes), outcomes, dirs),
    ensures
        forall|i: int|
            (if matched {
                1int
            } else {
                0int
            }) <= i < dirs.len() ==> (#[trigger] dirs[i]).main == dirs[if matched {
                1int
            } else {
                0int
            }].main,
{
    lemma_start(OverlayMode::Copy, matched, eligible);
    let (s, a) = TaskState::start(OverlayMode::Copy, matched, eligible);
    if matched {
        if outcomes.len() > 0 {
            lemma_history_rest(s, a, outcomes, dirs);
            let (s1, a1) = s.next(outcomes[0]);
            let later = dirs.drop_first();
            lemma_run_keeps_main(s1, a1, outcomes.drop_first(), later);
            assert forall|i: int| 1 <= i < dirs.len() implies (#[trigger] dirs[i]).main
                == dirs[1].main by {
                assert(later[i - 1] == dirs[i]);
            }
        }
    } else {
        lemma_run_keeps_main(s, a, outcomes, dirs);
    }
}

proof fn lemma_run_keeps_duplicate(s: TaskState, a: Action, outcomes: Seq<bool>, dirs: Seq<Files>)
    requires
        coherent(s, a),
        s.mode != OverlayMode::Copy,
        history(run(s, a, outcomes), outcomes, dirs),
    ensures
        forall|i: int| 0 <= i < dirs.len() ==> (#[trigger] dirs[i]).duplicate == dirs[0].duplicate,
    decreases outcomes.len(),
{
    if !(a is Finish) && outcomes.len() > 0 {
        lemma_history_rest(s, a, outcomes, dirs);
        let (s1, a1) = s.next(outcomes[0]);
        let later = dirs.drop_first();
        lemma_run_keeps_duplicate(s1, a1, outcomes.drop_first(), later);
        assert(!a.touches(FileRole::Duplicate));
        assert forall|i: int| 0 <= i < dirs.len() implies (#[trigger] dirs[i]).duplicate
            == dirs[0].duplicate by {
            if i > 0 {
                assert(later[i - 1] == dirs[i]);
            }
        }
    }
}

/// Outside copy mode no duplicate is made: the directory holds under the
/// duplicate's name what it held before the task, which is nothing where
/// there was no such file.
pub proof fn lemma_no_duplicate_outside_copy_mode(
    mode: OverlayMode,
    matched: bool,
    eligible: bool,
    outcomes: Seq<bool>,
    dirs: Seq<Files>,
)
    requires
        mode != OverlayMode::Copy,
        history(trace(mode, matched, eligible, outcomes), outcomes, dirs),
    ensures
        forall|i: int| 0 <= i < dirs.len() ==> (#[trigger] dirs[i]).duplicate == dirs[0].duplicate,
{
    lemma_start(mode, matched, eligible);
    let (s, a) = TaskState::start(mode, matched, eligible);
    lemma_run_keeps_duplicate(s, a, outcomes, dirs);
}

proof fn lemma_run_keeps_overlays(s: TaskState, a: Action, outcomes: Seq<bool>, dirs: Seq<Files>)
    requires
        coherent(s, a),
        s.mode == OverlayMode::Ignore,
        history(run(s, a, outcomes), outcomes, dirs),
    ensures
        forall|i: int, role: FileRole|
            0 <= i < dirs.len() && role != FileRole::Main ==> #[trigger] dirs[i].at(role)
                == dirs[0].at(role),
    decreases outcomes.len(),
{
    if !(a is Finish) && outcomes.len() > 0 {
        lemma_history_rest(s, a, outcomes, dirs);
        let (s1, a1) = s.next(outcomes[0]);
        let later = dirs.drop_first();
        lemma_run_keeps_overlays(s1, a1, outcomes.drop_first(), later);
    }
}

/// Ignore mode leaves the overlays alone: nothing but the media file
/// changes in the directory, and that by the metadata writer only.
pub proof fn lemma_ignore_mode_keeps_overlays(
    matched: bool,
    eligible: bool,
    outcomes: Seq<bool>,
    dirs: Seq<Files>,
)
    requires
        history(trace(OverlayMode::Ignore, matched, eligible, outcomes), outcomes, dirs),
    ensures
        forall|i: int, role: FileRole|
            0 <= i < dirs.len() && role != FileRole::Main ==> #[trigger] dirs[i].at(role)
                == dirs[0].at(role),
        !matched ==> forall|i: int| 0 <= i < dirs.len() ==> (#[trigger] dirs[i]).main == dirs[0].main,
{
    lemma_start(OverlayMode::Ignore, matched, eligible);
    let (s, a) = TaskState::start(OverlayMode::Ignore, matched, eligible);
    lemma_run_keeps_overlays(s, a, outcomes, dirs);
    if !matched {
        lemma_run_shape(s, a, outcomes);
    }
}

proof fn lemma_run_cleans(s: TaskState, a: Action, outcomes: Seq<bool>, dirs: Seq<Files>)
    requires
        coherent(s, a),
        complete(run(s, a, outcomes)),
        history(run(s, a, outcomes), outcomes, dirs),
        dirs[0].normalized is None || s.phase is Normalize || s.phase is Duplicate
            || s.phase is Composite || s.phase is Abort || s.phase is Cleanup,
    ensures
        dirs.last().normalized is None,
    decreases outcomes.len(),
{
    if !(a is Finish) && outcomes.len() > 0 {
        lemma_history_rest(s, a, outcomes, dirs);
        let (s1, a1) = s.next(outcomes[0]);
        if s.phase is Abort || s.phase is Cleanup {
            assert(dirs[1].at(FileRole::Normalized) is None);
        }
        lemma_run_cleans(s1, a1, outcomes.drop_first(), dirs.drop_first());
    }
}

/// No normalized overlay is left behind: where the directory held none
/// before the task, it holds none when the task is over, whatever the
/// outcomes were.
pub proof fn lemma_no_normalized_overlay_left(
    mode: OverlayMode,
    matched: bool,
    eligible: bool,
    outcomes: Seq<bool>,
    dirs: Seq<Files>,
)
    requires
        complete(trace(mode, matched, eligible, outcomes)),
        history(trace(mode, matched, eligible, outcomes), outcomes, dirs),
        dirs[0].normalized is None,
    ensures
        dirs.last().normalized is None,
{
    lemma_start(mode, matched, eligible);
    let (s, a) = TaskState::start(mode, matched, eligible);
    lemma_run_cleans(s, a, outcomes, dirs);
}

/// The action at index `i` of `t` is a run of the compositor, and it failed.
pub open spec fn compositor_failed_at(t: Seq<Action>, outcomes: Seq<bool>, i: int) -> bool {
    0 <= i < t.len() && i < outcomes.len() && t[i] is Composite && !outcomes[i]
}

/// How far a task has come in clearing up after a compositor that failed:
/// the failure lies `stage` steps ahead, or the normalized overlay, the
/// output or the duplicate is being removed, or all of that is done.
spec fn clearing(s: TaskState, t: Seq<Action>, outcomes: Seq<bool>, first: Files, stage: int) -> bool {
    ||| compositor_failed_at(t, outcomes, stage)
    ||| stage == -1 && s.phase == (Phase::Cleanup { composed: false })
    ||| stage == -2 && s.phase is DropOutput
    ||| stage == -3 && s.phase is DropDuplicate && first.output is None
    ||| stage == -4 && s.phase is Finished && !s.overlay && first.output is None && (s.mode
        == OverlayMode::Copy ==> first.duplicate is None)
}

proof fn lemma_run_failure(
    s: TaskState,
    a: Action,
    outcomes: Seq<bool>,
    dirs: Seq<Files>,
    stage: int,
)
    requires
        coherent(s, a),
        complete(run(s, a, outcomes)),
        history(run(s, a, outcomes), outcomes, dirs),
        clearing(s, run(s, a, outcomes), outcomes, dirs[0], stage),
    ensures
        dirs.last().output is None,
        s.mode == OverlayMode::Copy ==> dirs.last().duplicate is None,
        run(s, a, outcomes).last() matches Action::Finish { overlay_applied, .. }
            && !overlay_applied,
    decreases outcomes.len(),
{
    if !(a is Finish) && outcomes.len() > 0 {
        lemma_history_rest(s, a, outcomes, dirs);
        let tail = outcomes.drop_first();
        let (s1, a1) = s.next(outcomes[0]);
        let later = dirs.drop_first();
        if stage > 0 {
            lemma_run_failure(s1, a1, tail, later, stage - 1);
        } else if stage == 0 {
            lemma_run_failure(s1, a1, tail, later, -1);
        } else if stage == -1 {
            lemma_run_failure(s1, a1, tail, later, -2);
        } else if stage == -2 {
            assert(dirs[1].at(FileRole::Output) is None);
            if s.mode == OverlayMode::Copy {
                lemma_run_failure(s1, a1, tail, later, -3);
            } else {
                lemma_run_failure(s1, a1, tail, later, -4);
            }
        } else {
            lemma_run_failure(s1, a1, tail, later, -4);
        }
    }
}

/// A compositor that failed leaves nothing behind: when the task is over
/// the directory holds neither its output nor, in copy mode, the duplicate,
/// and the task reports no overlay.
pub proof fn lemma_failed_compositor_leaves_nothing(
    mode: OverlayMode,
    matched: bool,
    eligible: bool,
    outcomes: Seq<bool>,
    dirs: Seq<Files>,
    i: int,
)
    requires
        complete(trace(mode, matched, eligible, outcomes)),
        history(trace(mode, matched, eligible, outcomes), outcomes, dirs),
        compositor_failed_at(trace(mode, matched, eligible, outcomes), outcomes, i),
    ensures
        dirs.last().output is None,
        mode == OverlayMode::Copy ==> dirs.last().duplicate is None,
        trace(mode, matched, eligible, outcomes).last() matches Action::Finish {
            overlay_applied,
            ..
        } && !overlay_applied,
{
    lemma_start(mode, matched, eligible);
    let (s, a) = TaskState::start(mode, matched, eligible);
    lemma_run_failure(s, a, outcomes, dirs, i);
}

/// The compositor ran at index `c` of the run and succeeded, and when the
/// task was over the file that receives the overlay held what it had
/// written, and no output was left; in copy mode it was given a duplicate
/// that held what the media file held.
pub open spec fn landed(
    mode: OverlayMode,
    t: Seq<Action>,
    outcomes: Seq<bool>,
    dirs: Seq<Files>,
    c: int,
) -> bool {
    &&& composed_at(mode, t, outcomes, c)
    &&& c + 1 < dirs.len()
    &&& dirs[c + 1].output is Some
    &&& dirs.last().at(receiver(mode)) == dirs[c + 1].output
    &&& dirs.last().output is None
    &&& mode == OverlayMode::Copy ==> dirs[c].duplicate == dirs[c].main
}

/// The task can apply no overlay any more.
spec fn past_hope(s: TaskState) -> bool {
    ||| s.phase == Phase::Cleanup { composed: false }
    ||| s.phase is DropOutput
    ||| s.phase is DropDuplicate
    ||| s.phase is Abort
    ||| s.phase is Finished && !s.overlay
}

proof fn lemma_run_lost(s: TaskState, a: Action, outcomes: Seq<bool>)
    requires
        coherent(s, a),
        complete(run(s, a, outcomes)),
        past_hope(s),
    ensures
        run(s, a, outcomes).last() matches Action::Finish { overlay_applied, .. }
            && !overlay_applied,
    decreases outcomes.len(),
{
    if !(a is Finish) && outcomes.len() > 0 {
        let (s1, a1) = s.next(outcomes[0]);
        lemma_step(s, a, outcomes[0]);
        lemma_run_shape(s1, a1, outcomes.drop_first());
        lemma_run_lost(s1, a1, outcomes.drop_first());
    }
}

proof fn lemma_run_lands(s: TaskState, a: Action, outcomes: Seq<bool>, dirs: Seq<Files>)
    requires
        coherent(s, a),
        complete(run(s, a, outcomes)),
        history(run(s, a, outcomes), outcomes, dirs),
        run(s, a, outcomes).last() matches Action::Finish { overlay_applied, .. } && overlay_applied,
        !(s.phase is Finished),
    ensures
        match s.phase {
            Phase::Rename => dirs.last().at(receiver(s.mode)) == dirs[0].output
                && dirs.last().output is None,
            Phase::Cleanup { .. } => dirs.last().at(receiver(s.mode)) == dirs[0].output
                && dirs.last().output is None,
            Phase::Composite => outcomes[0] && dirs.len() > 1 && dirs[1].output is Some
                && dirs.last().at(receiver(s.mode)) == dirs[1].output && dirs.last().output
                is None,
            _ => exists|c: int| landed(s.mode, run(s, a, outcomes), outcomes, dirs, c),
        },
    decreases outcomes.len(),
{
    let t = run(s, a, outcomes);
    if !(a is Finish) && outcomes.len() > 0 {
        lemma_history_rest(s, a, outcomes, dirs);
        let tail = outcomes.drop_first();
        let (s1, a1) = s.next(outcomes[0]);
        let rest = run(s1, a1, tail);
        let later = dirs.drop_first();
        lemma_run_shape(s1, a1, tail);
        if past_hope(s1) {
            lemma_run_lost(s1, a1, tail);
        } else if s1.phase is Finished {
            assert(a1 == (Action::Finish {
                metadata_applied: s1.metadata,
                overlay_applied: s1.overlay,
            }));
        } else {
            lemma_run_lands(s1, a1, tail, later);
            match s.phase {
                Phase::Cleanup { .. } => {
                    assert(!a.touches(FileRole::Output));
                },
                Phase::Composite => {},
                _ => {
                    if s1.phase is Composite {
                        assert(!a.touches(FileRole::Main));
                        assert(landed(s.mode, t, outcomes, dirs, 1));
                    } else {
                        let c = choose|c: int| landed(s1.mode, rest, tail, later, c);
                        assert(landed(s.mode, t, outcomes, dirs, c + 1));
                    }
                },
            }
        }
    }
}

/// An overlay that is reported as applied is on the file that receives it:
/// when the task is over, the directory holds under the name of that file,
/// the media file itself in overwrite mode and the duplicate in copy mode,
/// what a successful run of the compositor on that file had written, and
/// the output is no longer there. In copy mode the compositor was given a
/// duplicate that held what the media file held.
pub proof fn lemma_applied_overlay_is_in_place(
    mode: OverlayMode,
    matched: bool,
    eligible: bool,
    outcomes: Seq<bool>,
    dirs: Seq<Files>,
)
    requires
        complete(trace(mode, matched, eligible, outcomes)),
        history(trace(mode, matched, eligible, outcomes), outcomes, dirs),
        trace(mode, matched, eligible, outcomes).last() matches Action::Finish {
            overlay_applied,
            ..
        } && overlay_applied,
    ensures
        exists|c: int| landed(mode, trace(mode, matched, eligible, outcomes), outcomes, dirs, c),
{
    lemma_start(mode, matched, eligible);
    let (s, a) = TaskState::start(mode, matched, eligible);
    lemma_run_lands(s, a, outcomes, dirs);
}

} // verus!
