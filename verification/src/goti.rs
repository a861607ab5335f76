use vstd::prelude::*;
use crate::rang::Rang;

verus! {

/// One playable piece. A token belongs to one colour for its whole
/// lifetime and records the coordinate it currently stands on.
#[derive(Clone, Copy, Debug, PartialEq, Eq)]
pub struct LudoGoti {
    pub colour: Rang,
    pub coords: (u8, u8),
}

} // verus!
