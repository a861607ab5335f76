use vstd::prelude::*;

verus! {

/// One of the four player colours. Pure data: each colour determines a
/// fixed start cell, end cell, four pen cells and one home-lane turn.
#[derive(Clone, Copy, Debug, PartialEq, Eq, PartialOrd, Ord, Hash, Structural)]
pub enum Rang {
    Red,
    Green,
    Yellow,
    Blue,
}

/// A coordinate as a pair of mathematical integers, for specifications.
pub open spec fn cview(p: (u8, u8)) -> (int, int) {
    (p.0 as int, p.1 as int)
}

/// Index of a colour in the per-team bookkeeping vectors.
pub open spec fn team_index(colour: Rang) -> int {
    match colour {
        Rang::Red => 0,
        Rang::Green => 1,
        Rang::Yellow => 2,
        Rang::Blue => 3,
    }
}

/// Inverse of `team_index`.
pub open spec fn colour_at(i: int) -> Rang {
    if i == 0 {
        Rang::Red
    } else if i == 1 {
        Rang::Green
    } else if i == 2 {
        Rang::Yellow
    } else {
        Rang::Blue
    }
}

/// The cell a token of `colour` enters when it is unlocked from its pen.
pub open spec fn start_coord_spec(colour: Rang) -> (int, int) {
    match colour {
        Rang::Red => (13int, 6int),
        Rang::Green => (6int, 1int),
        Rang::Yellow => (1int, 8int),
        Rang::Blue => (8int, 13int),
    }
}

/// The cell a token of `colour` occupies exactly when it has finished.
pub open spec fn end_coord_spec(colour: Rang) -> (int, int) {
    match colour {
        Rang::Red => (8int, 7int),
        Rang::Green => (7int, 6int),
        Rang::Yellow => (6int, 7int),
        Rang::Blue => (7int, 8int),
    }
}

/// The (from, to) pair where `colour`'s travel on the shared track
/// diverts into its private home lane.
pub open spec fn home_turn_spec(colour: Rang) -> ((int, int), (int, int)) {
    match colour {
        Rang::Red => ((14int, 7int), (13int, 7int)),
        Rang::Green => ((7int, 0int), (7int, 1int)),
        Rang::Yellow => ((0int, 7int), (1int, 7int)),
        Rang::Blue => ((7int, 14int), (7int, 13int)),
    }
}

/// The four pen coordinates of `colour`, in their fixed unlock order.
pub open spec fn pen_coords_spec(colour: Rang) -> Seq<(int, int)> {
    match colour {
        Rang::Red => seq![(10int, 1int), (10int, 4int), (13int, 1int), (13int, 4int)],
        Rang::Green => seq![(1int, 1int), (1int, 4int), (4int, 1int), (4int, 4int)],
        Rang::Yellow => seq![(1int, 10int), (1int, 13int), (4int, 10int), (4int, 13int)],
        Rang::Blue => seq![(10int, 10int), (10int, 13int), (13int, 10int), (13int, 13int)],
    }
}

/// True exactly when `p` is one of the four pen coordinates of `colour`.
pub open spec fn is_pen_coord(colour: Rang, p: (int, int)) -> bool {
    match colour {
        Rang::Red => p == (10int, 1int) || p == (10int, 4int) || p == (13int, 1int) || p == (
        13int,
        4int,
        ),
        Rang::Green => p == (1int, 1int) || p == (1int, 4int) || p == (4int, 1int) || p == (
        4int,
        4int,
        ),
        Rang::Yellow => p == (1int, 10int) || p == (1int, 13int) || p == (4int, 10int) || p == (
        4int,
        13int,
        ),
        Rang::Blue => p == (10int, 10int) || p == (10int, 13int) || p == (13int, 10int) || p == (
        13int,
        13int,
        ),
    }
}

/// `is_pen_coord` agrees with membership in `pen_coords_spec`.
pub proof fn lemma_pen_coord_members(colour: Rang, p: (int, int))
    ensures
        is_pen_coord(colour, p) <==> pen_coords_spec(colour).contains(p),
{
    if is_pen_coord(colour, p) {
        let pens = pen_coords_spec(colour);
        if p == pens[0] {
            assert(pens.contains(p));
        } else if p == pens[1] {
            assert(pens.contains(p));
        } else if p == pens[2] {
            assert(pens.contains(p));
        } else {
            assert(p == pens[3]);
            assert(pens.contains(p));
        }
    }
    if pen_coords_spec(colour).contains(p) {
        let k = choose|k: int| 0 <= k < pen_coords_spec(colour).len() && pen_coords_spec(colour)[k]
            == p;
        assert(is_pen_coord(colour, p));
    }
}

#[allow(non_snake_case)]
impl Rang {
    pub fn GetStartCoord(colour: Rang) -> (r: (u8, u8))
        ensures
            cview(r) == start_coord_spec(colour),
    {
        match colour {
            Rang::Red => (13, 6),
            Rang::Green => (6, 1),
            Rang::Yellow => (1, 8),
            Rang::Blue => (8, 13),
        }
    }

    pub fn GetEndCoord(colour: Rang) -> (r: (u8, u8))
        ensures
            cview(r) == end_coord_spec(colour),
    {
        match colour {
            Rang::Red => (8, 7),
            Rang::Green => (7, 6),
            Rang::Yellow => (6, 7),
            Rang::Blue => (7, 8),
        }
    }

    pub fn GetHomeTurn(colour: Rang) -> (r: ((u8, u8), (u8, u8)))
        ensures
            cview(r.0) == home_turn_spec(colour).0,
            cview(r.1) == home_turn_spec(colour).1,
    {
        match colour {
            Rang::Red => ((14, 7), (13, 7)),
            Rang::Green => ((7, 0), (7, 1)),
            Rang::Yellow => ((0, 7), (1, 7)),
            Rang::Blue => ((7, 14), (7, 13)),
        }
    }

    pub fn GetLockedPositions(colour: Rang) -> (r: [(u8, u8); 4])
        ensures
            forall|k: int| 0 <= k < 4 ==> cview(r@[k]) == pen_coords_spec(colour)[k],
            forall|k: int| 0 <= k < 4 ==> is_pen_coord(colour, cview(r@[k])),
    {
        match colour {
            Rang::Red => [(10, 1), (10, 4), (13, 1), (13, 4)],
            Rang::Green => [(1, 1), (1, 4), (4, 1), (4, 4)],
            Rang::Yellow => [(1, 10), (1, 13), (4, 10), (4, 13)],
            Rang::Blue => [(10, 10), (10, 13), (13, 10), (13, 13)],
        }
    }
}

} // verus!
