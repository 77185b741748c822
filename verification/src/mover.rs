//! The move of the finished files into the output directory.

use crate::names::{role_name, sibling};
use crate::policy::{FileRole, OverlayMode};
use vstd::prelude::*;
use vstd::string::StringExecFns;

verus! {

/// One file to be moved into the output directory, under the name it has.
#[derive(Clone, Debug, PartialEq, Eq)]
pub struct Move {
    pub name: String,
    /// The file is moved only where it exists; that it is absent is no failure.
    pub only_if_present: bool,
}

/// What a move holds.
pub struct MoveView {
    pub name: Seq<char>,
    pub only_if_present: bool,
}

impl View for Move {
    type V = MoveView;

    open spec fn view(&self) -> MoveView {
        MoveView { name: self.name@, only_if_present: self.only_if_present }
    }
}

/// What the moves hold.
pub open spec fn move_views(moves: Seq<Move>) -> Seq<MoveView> {
    moves.map_values(|m: Move| m@)
}

/// The moves that the media file `name` gives rise to: the file itself,
/// and in copy mode the duplicate that carries the overlay, if there is one.
pub open spec fn moves_of(name: Seq<char>, mode: OverlayMode) -> Seq<MoveView> {
    let main = MoveView { name, only_if_present: false };
    if mode == OverlayMode::Copy {
        seq![
            main,
            MoveView {
                name: role_name(name, FileRole::Duplicate).unwrap(),
                only_if_present: true,
            },
        ]
    } else {
        seq![main]
    }
}

/// The number of `true` in `outcomes`.
pub open spec fn successes(outcomes: Seq<bool>) -> nat
    decreases outcomes.len(),
{
    if outcomes.len() == 0 {
        0
    } else {
        successes(outcomes.drop_last()) + if outcomes.last() {
            1nat
        } else {
            0nat
        }
    }
}

/// The moves that the media file `name` gives rise to.
pub fn moves_for(name: &str, mode: OverlayMode) -> (r: Vec<Move>)
    ensures
        move_views(r@) == moves_of(name@, mode),
{
    let mut moves: Vec<Move> = Vec::new();
    moves.push(Move { name: String::from_str(name), only_if_present: false });
    match mode {
        OverlayMode::Copy => {
            match sibling(name, FileRole::Duplicate) {
                Some(duplicate) => {
                    moves.push(Move { name: duplicate, only_if_present: true });
                },
                None => {},
            }
        },
        _ => {},
    }
    moves
}

/// The number of moves that succeeded.
pub fn count_moved(outcomes: &Vec<bool>) -> (r: usize)
    ensures
        r == successes(outcomes@),
        r <= outcomes.len(),
{
    let mut moved: usize = 0;
    let mut i: usize = 0;
    while i < outcomes.len()
        invariant
            i <= outcomes.len(),
            moved <= i,
            moved == successes(outcomes@.take(i as int)),
        decreases outcomes.len() - i,
    {
        assert(outcomes@.take(i + 1).drop_last() =~= outcomes@.take(i as int));
        if outcomes[i] {
            moved += 1;
        }
        i += 1;
    }
    assert(outcomes@.take(i as int) =~= outcomes@);
    moved
}

} // verus!
