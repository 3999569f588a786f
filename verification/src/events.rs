use vstd::prelude::*;
use crate::board::LockResult;
use crate::piece::{FallingPiece, Piece};

verus! {

/// Everything observable the engine reports for one tick, in emission
/// order. The event list is the sole output of an update.
#[derive(Clone, Debug, PartialEq)]
pub enum Event {
    PieceSpawned { new_in_queue: Piece },
    SpawnDelayStart,
    PieceMoved,
    PieceRotated,
    PieceTSpined,
    PieceHeld(Piece),
    StackTouched,
    SoftDropped,
    PieceFalling(FallingPiece, FallingPiece),
    EndOfLineClearDelay,
    PiecePlaced { piece: FallingPiece, locked: LockResult, hard_drop_distance: Option<i32> },
    GarbageSent(u32),
    GarbageAdded(Vec<usize>),
    GameOver,
}

pub open spec fn is_held(e: Event) -> bool {
    e is PieceHeld
}

pub open spec fn is_placed(e: Event) -> bool {
    e is PiecePlaced
}

pub open spec fn is_move_event(e: Event) -> bool {
    e is PieceMoved || e is PieceRotated || e is PieceTSpined
}

/// Some event of the tick is a hold.
pub open spec fn has_held(s: Seq<Event>) -> bool {
    exists|i: int| 0 <= i < s.len() && is_held(#[trigger] s[i])
}

/// Some event of the tick is a lock.
pub open spec fn has_placed(s: Seq<Event>) -> bool {
    exists|i: int| 0 <= i < s.len() && is_placed(#[trigger] s[i])
}

/// Some event of the tick is a successful move or rotation.
pub open spec fn has_move_event(s: Seq<Event>) -> bool {
    exists|i: int| 0 <= i < s.len() && is_move_event(#[trigger] s[i])
}

/// Some event of the tick marks the start of a spawn delay.
pub open spec fn has_spawn_delay_start(s: Seq<Event>) -> bool {
    exists|i: int| 0 <= i < s.len() && (#[trigger] s[i]) is SpawnDelayStart
}

/// No two distinct events of the tick are holds.
pub open spec fn at_most_one_held(s: Seq<Event>) -> bool {
    forall|i: int, j: int|
        0 <= i < j < s.len() && is_held(#[trigger] s[i]) ==> !is_held(#[trigger] s[j])
}

} // verus!
