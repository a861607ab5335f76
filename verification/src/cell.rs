use vstd::prelude::*;
use crate::rang::Rang;

verus! {

/// What a board square is. Assigned once at construction, never mutated.
#[derive(Clone, Copy, Debug, PartialEq, Eq, Structural)]
pub enum LudoCellType {
    /// Ordinary shared path square.
    Default,
    /// Capture-immune shared square; eight fixed coordinates.
    SafeSpot,
    /// One of a colour's four pen squares.
    LockedPosition(Rang),
    /// A square of a colour's private finishing stretch.
    HomeLane(Rang),
    /// Not part of the playable track.
    NoUse,
}

/// One square of the board: its fixed type and the identifiers of the
/// tokens currently standing on it, in arrival order.
#[derive(Debug)]
pub struct LudoCell {
    pub cell_type: LudoCellType,
    pub gotis: Vec<usize>,
}

} // verus!
