use vstd::prelude::*;
use crate::rang::{Rang, is_pen_coord, home_turn_spec, start_coord_spec, end_coord_spec};
use crate::cell::LudoCellType;

verus! {

/// The board is a 15x15 grid.
pub open spec fn in_bounds(p: (int, int)) -> bool {
    0 <= p.0 <= 14 && 0 <= p.1 <= 14
}

/// The eight capture-immune squares.
pub open spec fn is_safe_coord(p: (int, int)) -> bool {
    p == (1int, 8int) || p == (2int, 6int) || p == (6int, 1int) || p == (6int, 12int) || p == (
    8int,
    2int,
    ) || p == (8int, 13int) || p == (12int, 8int) || p == (13int, 6int)
}

/// The five squares of `colour`'s private finishing stretch.
pub open spec fn is_lane_coord(colour: Rang, p: (int, int)) -> bool {
    match colour {
        Rang::Red => p.1 == 7 && 9 <= p.0 <= 13,
        Rang::Green => p.0 == 7 && 1 <= p.1 <= 5,
        Rang::Yellow => p.1 == 7 && 1 <= p.0 <= 5,
        Rang::Blue => p.0 == 7 && 9 <= p.1 <= 13,
    }
}

/// The type each square of the board has once the grid is built for the
/// given set of active colours: pens of active colours, then home lanes,
/// then safe spots, then the unusable centre, then the two 3-wide arms,
/// and unusable everywhere else. Pens of inactive colours stay unusable.
pub open spec fn spec_kind(active: Seq<Rang>, p: (int, int)) -> LudoCellType {
    if is_pen_coord(Rang::Red, p) {
        if active.contains(Rang::Red) {
            LudoCellType::LockedPosition(Rang::Red)
        } else {
            LudoCellType::NoUse
        }
    } else if is_pen_coord(Rang::Green, p) {
        if active.contains(Rang::Green) {
            LudoCellType::LockedPosition(Rang::Green)
        } else {
            LudoCellType::NoUse
        }
    } else if is_pen_coord(Rang::Yellow, p) {
        if active.contains(Rang::Yellow) {
            LudoCellType::LockedPosition(Rang::Yellow)
        } else {
            LudoCellType::NoUse
        }
    } else if is_pen_coord(Rang::Blue, p) {
        if active.contains(Rang::Blue) {
            LudoCellType::LockedPosition(Rang::Blue)
        } else {
            LudoCellType::NoUse
        }
    } else if is_lane_coord(Rang::Red, p) {
        LudoCellType::HomeLane(Rang::Red)
    } else if is_lane_coord(Rang::Green, p) {
        LudoCellType::HomeLane(Rang::Green)
    } else if is_lane_coord(Rang::Yellow, p) {
        LudoCellType::HomeLane(Rang::Yellow)
    } else if is_lane_coord(Rang::Blue, p) {
        LudoCellType::HomeLane(Rang::Blue)
    } else if is_safe_coord(p) {
        LudoCellType::SafeSpot
    } else if 6 <= p.0 <= 8 && 6 <= p.1 <= 8 {
        LudoCellType::NoUse
    } else if in_bounds(p) && (6 <= p.0 <= 8 || 6 <= p.1 <= 8) {
        LudoCellType::Default
    } else {
        LudoCellType::NoUse
    }
}

/// The coordinates on which one step of travel is defined: squares of
/// the two arms, except the very centre. Stepping from anywhere else is
/// a programming error in a caller.
pub open spec fn has_next(p: (int, int)) -> bool {
    in_bounds(p) && (6 <= p.0 <= 8 || 6 <= p.1 <= 8) && p != (7int, 7int)
}

/// Where a token of `colour` standing on `p` goes in one step: a fixed
/// turn at the eight outer and four inner corners, the colour's own
/// diversion into its home lane, and otherwise straight travel along
/// whichever arm `p` lies on. Total function; callers guard with
/// `has_next`.
pub open spec fn next_coord_spec(colour: Rang, p: (int, int)) -> (int, int) {
    if p == (0int, 6int) {
        (0int, 7int)
    } else if p == (0int, 8int) {
        (1int, 8int)
    } else if p == (6int, 0int) {
        (6int, 1int)
    } else if p == (6int, 14int) {
        (7int, 14int)
    } else if p == (8int, 0int) {
        (7int, 0int)
    } else if p == (8int, 14int) {
        (8int, 13int)
    } else if p == (14int, 6int) {
        (13int, 6int)
    } else if p == (14int, 8int) {
        (14int, 7int)
    } else if p == (9int, 6int) {
        (8int, 5int)
    } else if p == (6int, 5int) {
        (5int, 6int)
    } else if p == (8int, 9int) {
        (9int, 8int)
    } else if p == (5int, 8int) {
        (6int, 9int)
    } else if p == home_turn_spec(colour).0 {
        home_turn_spec(colour).1
    } else if p.0 == 6 {
        (6int, p.1 + 1)
    } else if p.0 == 7 && p.1 == 0 {
        (6int, 0int)
    } else if p.0 == 7 && p.1 < 6 {
        (7int, p.1 + 1)
    } else if p.0 == 7 && p.1 == 14 {
        (8int, 14int)
    } else if p.0 == 7 && p.1 > 8 {
        (7int, p.1 - 1)
    } else if p.0 == 8 {
        (8int, p.1 - 1)
    } else if p.1 == 6 {
        (p.0 - 1, 6int)
    } else if p.1 == 7 && p.0 == 0 {
        (0int, 8int)
    } else if p.1 == 7 && p.0 < 6 {
        (p.0 + 1, 7int)
    } else if p.1 == 7 && p.0 == 14 {
        (14int, 6int)
    } else if p.1 == 7 && p.0 > 8 {
        (p.0 - 1, 7int)
    } else if p.1 == 8 {
        (p.0 + 1, 8int)
    } else {
        p
    }
}

/// `next_coord_spec` applied `n` times.
pub open spec fn iterate_next(colour: Rang, p: (int, int), n: nat) -> (int, int)
    decreases n,
{
    if n == 0 {
        p
    } else {
        iterate_next(colour, next_coord_spec(colour, p), (n - 1) as nat)
    }
}

/// A square a step may land on: on the board, and either usable or the
/// moving colour's own end square.
pub open spec fn landing_ok(active: Seq<Rang>, colour: Rang, q: (int, int)) -> bool {
    in_bounds(q) && (spec_kind(active, q) != LudoCellType::NoUse || q == end_coord_spec(colour))
}

/// The square reached after `n` steps from `p`, or `None` as soon as a
/// step leaves the board or lands on an unusable square that is not the
/// moving colour's own end.
pub open spec fn path_spec(active: Seq<Rang>, colour: Rang, p: (int, int), n: nat) -> Option<
    (int, int),
>
    decreases n,
{
    if n == 0 {
        Some(p)
    } else {
        let q = next_coord_spec(colour, p);
        if !landing_ok(active, colour, q) {
            None
        } else {
            path_spec(active, colour, q, (n - 1) as nat)
        }
    }
}

/// Movement legality: a pen square unlocks to the colour's start square
/// exactly on a distance of 6; from anywhere else the token advances
/// `dist` steps, failing if any step leaves the track.
pub open spec fn move_possible_spec(
    active: Seq<Rang>,
    colour: Rang,
    s: (int, int),
    dist: u8,
) -> Option<(int, int)> {
    if is_pen_coord(colour, s) {
        if dist == 6 {
            Some(start_coord_spec(colour))
        } else {
            None
        }
    } else {
        path_spec(active, colour, s, dist as nat)
    }
}

/// One step from a steppable square lands on a steppable square that is
/// no pen: travel stays on the arms and never re-enters a pen.
pub proof fn lemma_step_stays_on_track(colour: Rang, p: (int, int))
    requires
        has_next(p),
    ensures
        has_next(next_coord_spec(colour, p)),
        forall|t: Rang| !is_pen_coord(t, next_coord_spec(colour, p)),
{
    let q = next_coord_spec(colour, p);
    assert(has_next(q) && forall|t: Rang| !is_pen_coord(t, q)) by {
        assert(forall|t: Rang| is_pen_coord(t, q) ==> !(6 <= q.0 <= 8 || 6 <= q.1 <= 8));
    }
}

/// Whether `p` is a pen square of any colour.
pub open spec fn is_any_pen(p: (int, int)) -> bool {
    is_pen_coord(Rang::Red, p) || is_pen_coord(Rang::Green, p) || is_pen_coord(Rang::Yellow, p)
        || is_pen_coord(Rang::Blue, p)
}

/// Pen squares of different colours never coincide.
pub proof fn lemma_pen_owner_unique(t1: Rang, t2: Rang, p: (int, int))
    requires
        is_pen_coord(t1, p),
        is_pen_coord(t2, p),
    ensures
        t1 == t2,
{
}

/// Every colour's start square is a safe spot, and its end square is
/// unusable and is no pen.
pub proof fn lemma_start_end_kinds(active: Seq<Rang>, colour: Rang)
    ensures
        spec_kind(active, start_coord_spec(colour)) == LudoCellType::SafeSpot,
        spec_kind(active, end_coord_spec(colour)) == LudoCellType::NoUse,
        !is_any_pen(end_coord_spec(colour)),
        start_coord_spec(colour) != end_coord_spec(colour),
        in_bounds(start_coord_spec(colour)),
        in_bounds(end_coord_spec(colour)),
{
}

/// Where a walk of at least one step ends: on the board, steppable, and
/// never on a pen square.
pub proof fn lemma_path_dest_on_track(active: Seq<Rang>, colour: Rang, p: (int, int), n: nat)
    requires
        has_next(p),
        n >= 1,
        path_spec(active, colour, p, n) is Some,
    ensures
        forall|fc: (int, int)|
            path_spec(active, colour, p, n) == Some(fc) ==> in_bounds(fc) && has_next(fc)
                && !is_any_pen(fc) && landing_ok(active, colour, fc),
    decreases n,
{
    let q = next_coord_spec(colour, p);
    lemma_step_stays_on_track(colour, p);
    if n == 1 {
        assert(path_spec(active, colour, p, n) == Some(q));
        assert(landing_ok(active, colour, q));
    } else {
        assert(path_spec(active, colour, p, n) == path_spec(active, colour, q, (n - 1) as nat));
        lemma_path_dest_on_track(active, colour, q, (n - 1) as nat);
    }
}

/// Unrolling an iterated walk from the far end: one more step is one
/// application of `next_coord_spec` to where the walk stood.
pub proof fn lemma_iterate_snoc(colour: Rang, p: (int, int), n: nat)
    ensures
        iterate_next(colour, p, n + 1) == next_coord_spec(colour, iterate_next(colour, p, n)),
    decreases n,
{
    let q = next_coord_spec(colour, p);
    assert(iterate_next(colour, p, n + 1) == iterate_next(colour, q, n));
    if n == 0 {
        assert(iterate_next(colour, q, 0) == q);
        assert(iterate_next(colour, p, 0) == p);
    } else {
        lemma_iterate_snoc(colour, q, (n - 1) as nat);
        assert(iterate_next(colour, p, n) == iterate_next(colour, q, (n - 1) as nat));
    }
}

/// A usable square other than a pen is steppable.
pub proof fn lemma_usable_has_next(active: Seq<Rang>, p: (int, int))
    requires
        in_bounds(p),
        spec_kind(active, p) != LudoCellType::NoUse,
        !(spec_kind(active, p) matches LudoCellType::LockedPosition(_)),
    ensures
        has_next(p),
{
}

} // verus!
