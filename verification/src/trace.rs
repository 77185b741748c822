//! What holds of every run of a file's task, whatever the outcomes of its
//! actions are.

use crate::policy::{Action, FileRole, OverlayMode, Phase, TaskState};
use vstd::prelude::*;

verus! {

/// The actions that a task hands out from `action` on, while the outcomes
/// are fed to it one by one. The run ends with `Finish`, or earlier where the
/// outcomes are used up. The outcome of the action at index `i` is
/// `outcomes[i]`.
pub open spec fn run(state: TaskState, action: Action, outcomes: Seq<bool>) -> Seq<Action>
    decreases outcomes.len(),
{
    if action is Finish || outcomes.len() == 0 {
        seq![action]
    } else {
        let (s, a) = state.next(outcomes[0]);
        seq![action] + run(s, a, outcomes.drop_first())
    }
}

/// The run of a fresh task.
pub open spec fn trace(mode: OverlayMode, matched: bool, eligible: bool, outcomes: Seq<bool>) -> Seq<
    Action,
> {
    let (s, a) = TaskState::start(mode, matched, eligible);
    run(s, a, outcomes)
}

/// The run has reached its end.
pub open spec fn complete(t: Seq<Action>) -> bool {
    t.len() > 0 && t.last() is Finish
}

/// An upper bound on the outcomes that a task in this phase still takes.
pub open spec fn steps_left(phase: Phase) -> nat {
    match phase {
        Phase::Metadata => 8,
        Phase::Probe => 7,
        Phase::Normalize => 6,
        Phase::Duplicate => 5,
        Phase::Composite => 4,
        Phase::Cleanup { .. } => 3,
        Phase::DropOutput => 2,
        Phase::Abort => 1,
        Phase::Rename => 1,
        Phase::DropDuplicate => 1,
        Phase::Finished => 0,
    }
}

/// The pending action is the one that the phase waits for, and the flags
/// are those of a state that a fresh task can reach.
pub open spec fn coherent(s: TaskState, a: Action) -> bool {
    &&& match s.phase {
        Phase::Metadata => a is WriteMetadata,
        Phase::Probe => a is ProbeOverlay,
        Phase::Normalize => a is NormalizeOverlay,
        Phase::Duplicate => a is DuplicateMain,
        Phase::Abort => a == (Action::Remove { file: FileRole::Normalized }),
        Phase::Composite => a == (Action::Composite {
            base: s.target(),
            overlay: s.overlay_source(),
        }),
        Phase::Cleanup { .. } => a == (Action::Remove { file: FileRole::Normalized }),
        Phase::Rename => a == (Action::Rename { to: s.target() }),
        Phase::DropOutput => a == (Action::Remove { file: FileRole::Output }),
        Phase::DropDuplicate => a == (Action::Remove { file: FileRole::Duplicate }),
        Phase::Finished => a == (Action::Finish {
            metadata_applied: s.metadata,
            overlay_applied: s.overlay,
        }),
    }
    &&& !(s.phase is Metadata) && !(s.phase is Finished) ==> s.mode != OverlayMode::Ignore
        && s.eligible
    &&& s.phase is Duplicate || s.phase is Abort || s.phase is DropDuplicate ==> s.mode
        == OverlayMode::Copy
    &&& s.overlay ==> s.phase is Finished
}

/// A step keeps a task coherent and brings it nearer to its end.
pub proof fn lemma_step(s: TaskState, a: Action, outcome: bool)
    requires
        coherent(s, a),
    ensures
        coherent(s.next(outcome).0, s.next(outcome).1),
        !(s.phase is Finished) ==> steps_left(s.next(outcome).0.phase) < steps_left(s.phase),
        s.next(outcome).0.mode == s.mode,
        s.next(outcome).0.eligible == s.eligible,
{
}

/// A fresh task is coherent.
pub proof fn lemma_start(mode: OverlayMode, matched: bool, eligible: bool)
    ensures
        coherent(
            TaskState::start(mode, matched, eligible).0,
            TaskState::start(mode, matched, eligible).1,
        ),
        TaskState::start(mode, matched, eligible).0.mode == mode,
        TaskState::start(mode, matched, eligible).0.eligible == eligible,
{
}

/// A run is never empty, begins with the pending action, has at most one
/// action more than it was given outcomes, and holds `Finish` at its end or
/// nowhere.
pub proof fn lemma_run_shape(s: TaskState, a: Action, outcomes: Seq<bool>)
    requires
        coherent(s, a),
    ensures
        run(s, a, outcomes).len() >= 1,
        run(s, a, outcomes)[0] == a,
        run(s, a, outcomes).len() <= outcomes.len() + 1,
        forall|i: int|
            0 <= i < run(s, a, outcomes).len() - 1 ==> !(#[trigger] run(s, a, outcomes)[i] is Finish),
        outcomes.len() >= steps_left(s.phase) ==> complete(run(s, a, outcomes)),
    decreases outcomes.len(),
{
    if !(a is Finish) && outcomes.len() > 0 {
        let (s1, a1) = s.next(outcomes[0]);
        lemma_step(s, a, outcomes[0]);
        lemma_run_shape(s1, a1, outcomes.drop_first());
    }
}

/// Every task ends: eight outcomes are enough for any of them, and `Finish`
/// is the last action of a run and stands nowhere else in it.
pub proof fn lemma_task_ends(mode: OverlayMode, matched: bool, eligible: bool, outcomes: Seq<bool>)
    ensures
        outcomes.len() >= 8 ==> complete(trace(mode, matched, eligible, outcomes)),
        forall|i: int|
            0 <= i < trace(mode, matched, eligible, outcomes).len() - 1 ==> !(#[trigger] trace(
                mode,
                matched,
                eligible,
                outcomes,
            )[i] is Finish),
{
    lemma_start(mode, matched, eligible);
    let (s, a) = TaskState::start(mode, matched, eligible);
    lemma_run_shape(s, a, outcomes);
}

/// The file that receives the overlay under `mode`.
pub open spec fn receiver(mode: OverlayMode) -> FileRole {
    if mode == OverlayMode::Copy {
        FileRole::Duplicate
    } else {
        FileRole::Main
    }
}

/// What a mode admits of an action of the overlay step.
pub open spec fn admitted(mode: OverlayMode, a: Action) -> bool {
    match a {
        Action::WriteMetadata => false,
        Action::Finish { .. } => true,
        Action::ProbeOverlay | Action::NormalizeOverlay => mode != OverlayMode::Ignore,
        Action::DuplicateMain => mode == OverlayMode::Copy,
        Action::Composite { base, overlay } => mode != OverlayMode::Ignore && base == receiver(mode)
            && (overlay == FileRole::Overlay || overlay == FileRole::Normalized),
        Action::Rename { to } => mode != OverlayMode::Ignore && to == receiver(mode),
        Action::Remove { file } => mode != OverlayMode::Ignore && (file == FileRole::Normalized
            || file == FileRole::Output || (file == FileRole::Duplicate && mode
            == OverlayMode::Copy)),
    }
}

/// The task has asked for the normalized overlay and not yet for its removal.
pub open spec fn owes_cleanup(phase: Phase) -> bool {
    phase is Normalize || phase is Duplicate || phase is Composite
}

proof fn lemma_run_admitted(s: TaskState, a: Action, outcomes: Seq<bool>)
    requires
        coherent(s, a),
    ensures
        forall|i: int|
            1 <= i < run(s, a, outcomes).len() ==> admitted(s.mode, #[trigger] run(s, a, outcomes)[i]),
    decreases outcomes.len(),
{
    if !(a is Finish) && outcomes.len() > 0 {
        let (s1, a1) = s.next(outcomes[0]);
        lemma_step(s, a, outcomes[0]);
        lemma_run_admitted(s1, a1, outcomes.drop_first());
        lemma_run_shape(s1, a1, outcomes.drop_first());
        let t = run(s, a, outcomes);
    }
}

/// The action at index `j` of `t` removes the normalized overlay.
pub open spec fn removal_at(t: Seq<Action>, j: int) -> bool {
    0 <= j < t.len() && t[j] == (Action::Remove { file: FileRole::Normalized })
}

/// The action at index `i` of `t` makes the normalized overlay.
pub open spec fn normalizing_at(t: Seq<Action>, i: int) -> bool {
    0 <= i < t.len() && t[i] is NormalizeOverlay
}

proof fn lemma_run_cleanup(s: TaskState, a: Action, outcomes: Seq<bool>)
    requires
        coherent(s, a),
        complete(run(s, a, outcomes)),
    ensures
        owes_cleanup(s.phase) ==> exists|j: int| 1 <= j && removal_at(run(s, a, outcomes), j),
        forall|i: int| #[trigger]
            normalizing_at(run(s, a, outcomes), i) ==> exists|j: int|
                i < j && removal_at(run(s, a, outcomes), j),
    decreases outcomes.len(),
{
    let t = run(s, a, outcomes);
    if !(a is Finish) && outcomes.len() > 0 {
        let (s1, a1) = s.next(outcomes[0]);
        lemma_step(s, a, outcomes[0]);
        lemma_run_shape(s1, a1, outcomes.drop_first());
        let rest = run(s1, a1, outcomes.drop_first());
        lemma_run_cleanup(s1, a1, outcomes.drop_first());
        assert forall|j: int| removal_at(rest, j) implies removal_at(t, j + 1) by {}
        if owes_cleanup(s.phase) {
            if owes_cleanup(s1.phase) {
                let j = choose|j: int| 1 <= j && removal_at(rest, j);
                assert(removal_at(t, j + 1));
            } else {
                assert(removal_at(rest, 0));
            }
        }
        assert forall|i: int| #[trigger] normalizing_at(t, i) implies exists|j: int|
            i < j && removal_at(t, j) by {
            if i > 0 {
                assert(normalizing_at(rest, i - 1));
                let j = choose|j: int| i - 1 < j && removal_at(rest, j);
                assert(removal_at(t, j + 1));
            }
        }
    }
}

/// The action at index `j` of `t` moved the composited output into place.
pub open spec fn renamed_at(t: Seq<Action>, outcomes: Seq<bool>, j: int) -> bool {
    0 <= j < t.len() && j < outcomes.len() && t[j] is Rename && outcomes[j]
}

proof fn lemma_run_report(s: TaskState, a: Action, outcomes: Seq<bool>)
    requires
        coherent(s, a),
        complete(run(s, a, outcomes)),
    ensures
        run(s, a, outcomes).last() matches Action::Finish { metadata_applied, overlay_applied } && ({
            &&& metadata_applied == if s.phase is Metadata {
                outcomes[0]
            } else {
                s.metadata
            }
            &&& overlay_applied == (s.overlay || exists|j: int|
                renamed_at(run(s, a, outcomes), outcomes, j))
        }),
        s.phase is Metadata ==> outcomes.len() >= 1,
    decreases outcomes.len(),
{
    let t = run(s, a, outcomes);
    if !(a is Finish) && outcomes.len() > 0 {
        let tail = outcomes.drop_first();
        let (s1, a1) = s.next(outcomes[0]);
        lemma_step(s, a, outcomes[0]);
        lemma_run_shape(s1, a1, tail);
        let rest = run(s1, a1, tail);
        lemma_run_report(s1, a1, tail);
        assert forall|j: int| renamed_at(rest, tail, j) implies renamed_at(t, outcomes, j + 1) by {}
        assert forall|j: int| renamed_at(t, outcomes, j) && j > 0 implies renamed_at(
            rest,
            tail,
            j - 1,
        ) by {}
        if exists|j: int| renamed_at(rest, tail, j) {
            let j = choose|j: int| renamed_at(rest, tail, j);
            assert(renamed_at(t, outcomes, j + 1));
        }
        if exists|j: int| renamed_at(t, outcomes, j) {
            let j = choose|j: int| renamed_at(t, outcomes, j);
            assert(j > 0 ==> renamed_at(rest, tail, j - 1));
        }
        if s1.overlay {
            assert(renamed_at(t, outcomes, 0));
        }
    } else {
        assert forall|j: int| !renamed_at(t, outcomes, j) by {}
    }
}

/// The metadata step comes first and once: a task begins with
/// `WriteMetadata` where a record was found, and hands it out nowhere else.
/// Every later action is one that the mode admits; under `Ignore` none of
/// them belongs to the overlay step.
pub proof fn lemma_metadata_first(
    mode: OverlayMode,
    matched: bool,
    eligible: bool,
    outcomes: Seq<bool>,
)
    ensures
        trace(mode, matched, eligible, outcomes).len() >= 1,
        matched <==> trace(mode, matched, eligible, outcomes)[0] is WriteMetadata,
        !matched ==> admitted(mode, trace(mode, matched, eligible, outcomes)[0]),
        forall|i: int|
            1 <= i < trace(mode, matched, eligible, outcomes).len() ==> admitted(
                mode,
                #[trigger] trace(mode, matched, eligible, outcomes)[i],
            ),
        mode == OverlayMode::Ignore ==> forall|i: int|
            0 <= i < trace(mode, matched, eligible, outcomes).len() ==> !(#[trigger] trace(
                mode,
                matched,
                eligible,
                outcomes,
            )[i]).is_overlay_work(),
{
    lemma_start(mode, matched, eligible);
    let (s, a) = TaskState::start(mode, matched, eligible);
    lemma_run_shape(s, a, outcomes);
    lemma_run_admitted(s, a, outcomes);
}

/// The overlay step needs no record and no success of the metadata writer:
/// where the mode wants overlays and the file's name admits one, the probe
/// for the overlay follows whatever the metadata step came to.
pub proof fn lemma_overlay_step_independent(
    mode: OverlayMode,
    matched: bool,
    eligible: bool,
    outcomes: Seq<bool>,
)
    requires
        mode != OverlayMode::Ignore,
        eligible,
        outcomes.len() >= 1,
    ensures
        !matched ==> trace(mode, matched, eligible, outcomes)[0] is ProbeOverlay,
        matched ==> trace(mode, matched, eligible, outcomes)[1] is ProbeOverlay,
{
    lemma_start(mode, matched, eligible);
    let (s, a) = TaskState::start(mode, matched, eligible);
    lemma_run_shape(s, a, outcomes);
    if matched {
        let (s1, a1) = s.next(outcomes[0]);
        lemma_step(s, a, outcomes[0]);
        lemma_run_shape(s1, a1, outcomes.drop_first());
    }
}

/// Copy mode leaves the media file alone: after the metadata step no
/// action writes, replaces or deletes `Main`; the compositor is given the
/// duplicate and its output is moved over the duplicate.
pub proof fn lemma_copy_mode_spares_main(matched: bool, eligible: bool, outcomes: Seq<bool>)
    ensures
        forall|i: int|
            0 <= i < trace(OverlayMode::Copy, matched, eligible, outcomes).len() && (#[trigger] trace(
                OverlayMode::Copy,
                matched,
                eligible,
                outcomes,
            )[i]).touches(FileRole::Main) ==> i == 0 && trace(
                OverlayMode::Copy,
                matched,
                eligible,
                outcomes,
            )[i] is WriteMetadata,
        forall|i: int|
            0 <= i < trace(OverlayMode::Copy, matched, eligible, outcomes).len() ==> (
            match #[trigger] trace(OverlayMode::Copy, matched, eligible, outcomes)[i] {
                Action::Composite { base, .. } => base == FileRole::Duplicate,
                Action::Rename { to } => to == FileRole::Duplicate,
                _ => true,
            }),
{
    lemma_metadata_first(OverlayMode::Copy, matched, eligible, outcomes);
    let t = trace(OverlayMode::Copy, matched, eligible, outcomes);
}

/// Overwrite mode works in place: no action makes or touches a duplicate,
/// the compositor is given the media file itself, and its output is moved
/// over the media file.
pub proof fn lemma_overwrite_mode_in_place(matched: bool, eligible: bool, outcomes: Seq<bool>)
    ensures
        forall|i: int|
            0 <= i < trace(OverlayMode::Overwrite, matched, eligible, outcomes).len() ==> {
                let a = #[trigger] trace(OverlayMode::Overwrite, matched, eligible, outcomes)[i];
                &&& !a.touches(FileRole::Duplicate)
                &&& match a {
                    Action::Composite { base, .. } => base == FileRole::Main,
                    Action::Rename { to } => to == FileRole::Main,
                    _ => true,
                }
            },
{
    lemma_metadata_first(OverlayMode::Overwrite, matched, eligible, outcomes);
    let t = trace(OverlayMode::Overwrite, matched, eligible, outcomes);
}

/// No normalized overlay is left behind: in a run that has reached its end,
/// every `NormalizeOverlay` is followed by a removal of `Normalized`,
/// whatever the outcomes were.
pub proof fn lemma_normalized_overlay_removed(
    mode: OverlayMode,
    matched: bool,
    eligible: bool,
    outcomes: Seq<bool>,
)
    requires
        complete(trace(mode, matched, eligible, outcomes)),
    ensures
        forall|i: int| #[trigger]
            normalizing_at(trace(mode, matched, eligible, outcomes), i) ==> exists|j: int|
                i < j && removal_at(trace(mode, matched, eligible, outcomes), j),
{
    lemma_start(mode, matched, eligible);
    let (s, a) = TaskState::start(mode, matched, eligible);
    lemma_run_cleanup(s, a, outcomes);
}

/// What a finished task reports: the metadata as applied where a record
/// was found and the writer succeeded, the overlay as applied where the
/// composited output was moved into place.
pub proof fn lemma_report(mode: OverlayMode, matched: bool, eligible: bool, outcomes: Seq<bool>)
    requires
        complete(trace(mode, matched, eligible, outcomes)),
    ensures
        trace(mode, matched, eligible, outcomes).last() matches Action::Finish {
            metadata_applied,
            overlay_applied,
        } && ({
            &&& metadata_applied == (matched && outcomes[0])
            &&& overlay_applied == exists|j: int|
                renamed_at(trace(mode, matched, eligible, outcomes), outcomes, j)
        }),
{
    lemma_start(mode, matched, eligible);
    let (s, a) = TaskState::start(mode, matched, eligible);
    lemma_run_report(s, a, outcomes);
}

/// The action at index `i` of `t` is a run of the compositor on the file
/// that receives the overlay under `mode`, and it succeeded.
pub open spec fn composed_at(mode: OverlayMode, t: Seq<Action>, outcomes: Seq<bool>, i: int) -> bool {
    &&& 0 <= i < t.len()
    &&& i < outcomes.len()
    &&& t[i] matches Action::Composite { base, .. }
    &&& base == receiver(mode)
    &&& outcomes[i]
}

proof fn lemma_run_composed(s: TaskState, a: Action, outcomes: Seq<bool>, j: int)
    requires
        coherent(s, a),
        renamed_at(run(s, a, outcomes), outcomes, j),
    ensures
        run(s, a, outcomes)[j] == (Action::Rename { to: receiver(s.mode) }),
        (exists|i: int| i < j && composed_at(s.mode, run(s, a, outcomes), outcomes, i)) || (s.phase
            == Phase::Cleanup { composed: true } && j == 1) || (s.phase is Rename && j == 0),
    decreases outcomes.len(),
{
    let t = run(s, a, outcomes);
    if !(a is Finish) && outcomes.len() > 0 {
        let tail = outcomes.drop_first();
        let (s1, a1) = s.next(outcomes[0]);
        lemma_step(s, a, outcomes[0]);
        lemma_run_shape(s1, a1, tail);
        let rest = run(s1, a1, tail);
        if j > 0 {
            lemma_run_composed(s1, a1, tail, j - 1);
            if exists|i: int| i < j - 1 && composed_at(s1.mode, rest, tail, i) {
                let i = choose|i: int| i < j - 1 && composed_at(s1.mode, rest, tail, i);
                assert(composed_at(s.mode, t, outcomes, i + 1));
            } else if s1.phase == (Phase::Cleanup { composed: true }) {
                assert(composed_at(s.mode, t, outcomes, 0));
            }
        }
    }
}

/// An overlay is applied by the compositor and nothing else: where the
/// output was moved into place, it was moved over the file that receives the
/// overlay under the mode, the media file itself in overwrite mode and the
/// duplicate in copy mode, and the compositor had run on that file before
/// and succeeded.
pub proof fn lemma_overlay_applied(
    mode: OverlayMode,
    matched: bool,
    eligible: bool,
    outcomes: Seq<bool>,
    j: int,
)
    requires
        renamed_at(trace(mode, matched, eligible, outcomes), outcomes, j),
    ensures
        trace(mode, matched, eligible, outcomes)[j] == (Action::Rename { to: receiver(mode) }),
        exists|i: int|
            i < j && composed_at(mode, trace(mode, matched, eligible, outcomes), outcomes, i),
{
    lemma_start(mode, matched, eligible);
    let (s, a) = TaskState::start(mode, matched, eligible);
    lemma_run_composed(s, a, outcomes, j);
}

} // verus!
