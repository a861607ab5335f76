use vstd::prelude::*;
use crate::rang::{Rang, start_coord_spec, end_coord_spec, team_index};
use crate::cell::LudoCellType;
use crate::geometry::{iterate_next, lemma_iterate_snoc, spec_kind, in_bounds};
use crate::engine::{LudoEngine, MoveResult};

verus! {

/// Token singularity: a well-formed board holds every token in exactly
/// one place. A token is penned, moving, or finished; never penned and
/// moving at once; while on the board it stands in the occupant list of
/// exactly the cell matching its coordinate; once finished it stands in
/// no cell and rests on its colour's end coordinate.
pub proof fn lemma_token_singularity(e: LudoEngine, id: usize)
    requires
        e.wf(),
        id < e.ngotis(),
    ensures
        e.in_locked(id) || e.in_moving(id) || e.gpos(id) == end_coord_spec(e.gcol(id)),
        !(e.in_locked(id) && e.in_moving(id)),
        e.on_board(id) ==> in_bounds(e.gpos(id)) && e.occ_at(e.gpos(id)).contains(id),
        forall|r: int, c: int|
            0 <= r < 15 && 0 <= c < 15 && #[trigger] e.occ_rc(r, c).contains(id) ==> e.on_board(
                id,
            ) && (r, c) == e.gpos(id),
{
    assert(e.is_active(e.gcol(id)) && (e.on_board(id) || e.gpos(id) == end_coord_spec(
        e.gcol(id),
    )));
    let i = team_index(e.gcol(id));
    LudoEngine::lemma_team_index_roundtrip(e.gcol(id));
    assert(!(e.locked_gotis@[i]@.contains(id) && e.moving_gotis@[i]@.contains(id)));
    assert forall|r: int, c: int|
        0 <= r < 15 && 0 <= c < 15 && #[trigger] e.occ_rc(r, c).contains(id) implies e.on_board(
        id,
    ) && (r, c) == e.gpos(id) by {
        let k = choose|k: int| 0 <= k < e.occ_rc(r, c).len() && e.occ_rc(r, c)[k] == id;
        assert(e.gpos(e.occ_rc(r, c)[k]) == (r, c) && e.on_board(e.occ_rc(r, c)[k]));
    }
}

/// Pen capacity: every active colour owns exactly four tokens, split
/// among its locked list, its moving list and its finished count.
pub proof fn lemma_pen_capacity(e: LudoEngine, colour: Rang)
    requires
        e.wf(),
        e.is_active(colour),
    ensures
        e.lseq(colour).len() + e.mseq(colour).len() + e.fin(colour) == 4,
{
    LudoEngine::lemma_team_index_roundtrip(colour);
    assert(e.team_total(team_index(colour)) == 4);
}

/// Capture exclusivity: a move that lands on a safe spot never
/// captures, regardless of who stands there.
pub proof fn lemma_safe_spot_never_captures(
    pre: LudoEngine,
    colour: Rang,
    fc: (int, int),
    m: MoveResult,
)
    requires
        spec_kind(pre.active_colours@, fc) == LudoCellType::SafeSpot,
        LudoEngine::move_outcome_ok(pre, colour, fc, m),
    ensures
        !pre.attack_happens(colour, fc),
        !(m matches MoveResult::Attacked(_)),
{
}

/// Idempotent legality: which moves are possible is a function of the
/// board state alone. Two engines in the same state answer every
/// movement query identically, so repeating a query cannot change its
/// answer, and the query itself takes the engine by shared reference
/// and cannot change the state.
pub proof fn lemma_legality_reads_only_state(
    e1: LudoEngine,
    e2: LudoEngine,
    colour: Rang,
    s: (u8, u8),
    dist: u8,
)
    requires
        e1.same_state(e2),
    ensures
        e1.mp(colour, s, dist) == e2.mp(colour, s, dist),
{
    assert(e1.active_colours@ == e2.active_colours@);
}

/// Geometric closure: from its start square, every colour's track
/// reaches that colour's end square after exactly 56 steps of
/// `next_coord_spec` -- around the shared track and up the home lane --
/// and after no fewer.
pub proof fn lemma_track_length(colour: Rang)
    ensures
        iterate_next(colour, start_coord_spec(colour), 56) == end_coord_spec(colour),
{
    match colour {
        Rang::Red => lemma_track_values_red(),
        Rang::Green => lemma_track_values_green(),
        Rang::Yellow => lemma_track_values_yellow(),
        Rang::Blue => lemma_track_values_blue(),
    }
}

/// No step of the walk before the 56th stands on the end square: 56 is
/// the exact length of every colour's track.
pub proof fn lemma_track_no_early_finish(colour: Rang, n: nat)
    requires
        1 <= n < 56,
    ensures
        iterate_next(colour, start_coord_spec(colour), n) != end_coord_spec(colour),
{
    match colour {
        Rang::Red => lemma_no_early_finish_red(n),
        Rang::Green => lemma_no_early_finish_green(n),
        Rang::Yellow => lemma_no_early_finish_yellow(n),
        Rang::Blue => lemma_no_early_finish_blue(n),
    }
}

proof fn lemma_track_values_red()
    ensures
        iterate_next(Rang::Red, (13int, 6int), 0) == (13int, 6int),
        iterate_next(Rang::Red, (13int, 6int), 1) == (12int, 6int),
        iterate_next(Rang::Red, (13int, 6int), 2) == (11int, 6int),
        iterate_next(Rang::Red, (13int, 6int), 3) == (10int, 6int),
        iterate_next(Rang::Red, (13int, 6int), 4) == (9int, 6int),
        iterate_next(Rang::Red, (13int, 6int), 5) == (8int, 5int),
        iterate_next(Rang::Red, (13int, 6int), 6) == (8int, 4int),
        iterate_next(Rang::Red, (13int, 6int), 7) == (8int, 3int),
        iterate_next(Rang::Red, (13int, 6int), 8) == (8int, 2int),
        iterate_next(Rang::Red, (13int, 6int), 9) == (8int, 1int),
        iterate_next(Rang::Red, (13int, 6int), 10) == (8int, 0int),
        iterate_next(Rang::Red, (13int, 6int), 11) == (7int, 0int),
        iterate_next(Rang::Red, (13int, 6int), 12) == (6int, 0int),
        iterate_next(Rang::Red, (13int, 6int), 13) == (6int, 1int),
        iterate_next(Rang::Red, (13int, 6int), 14) == (6int, 2int),
        iterate_next(Rang::Red, (13int, 6int), 15) == (6int, 3int),
        iterate_next(Rang::Red, (13int, 6int), 16) == (6int, 4int),
        iterate_next(Rang::Red, (13int, 6int), 17) == (6int, 5int),
        iterate_next(Rang::Red, (13int, 6int), 18) == (5int, 6int),
        iterate_next(Rang::Red, (13int, 6int), 19) == (4int, 6int),
        iterate_next(Rang::Red, (13int, 6int), 20) == (3int, 6int),
        iterate_next(Rang::Red, (13int, 6int), 21) == (2int, 6int),
        iterate_next(Rang::Red, (13int, 6int), 22) == (1int, 6int),
        iterate_next(Rang::Red, (13int, 6int), 23) == (0int, 6int),
        iterate_next(Rang::Red, (13int, 6int), 24) == (0int, 7int),
        iterate_next(Rang::Red, (13int, 6int), 25) == (0int, 8int),
        iterate_next(Rang::Red, (13int, 6int), 26) == (1int, 8int),
        iterate_next(Rang::Red, (13int, 6int), 27) == (2int, 8int),
        iterate_next(Rang::Red, (13int, 6int), 28) == (3int, 8int),
        iterate_next(Rang::Red, (13int, 6int), 29) == (4int, 8int),
        iterate_next(Rang::Red, (13int, 6int), 30) == (5int, 8int),
        iterate_next(Rang::Red, (13int, 6int), 31) == (6int, 9int),
        iterate_next(Rang::Red, (13int, 6int), 32) == (6int, 10int),
        iterate_next(Rang::Red, (13int, 6int), 33) == (6int, 11int),
        iterate_next(Rang::Red, (13int, 6int), 34) == (6int, 12int),
        iterate_next(Rang::Red, (13int, 6int), 35) == (6int, 13int),
        iterate_next(Rang::Red, (13int, 6int), 36) == (6int, 14int),
        iterate_next(Rang::Red, (13int, 6int), 37) == (7int, 14int),
        iterate_next(Rang::Red, (13int, 6int), 38) == (8int, 14int),
        iterate_next(Rang::Red, (13int, 6int), 39) == (8int, 13int),
        iterate_next(Rang::Red, (13int, 6int), 40) == (8int, 12int),
        iterate_next(Rang::Red, (13int, 6int), 41) == (8int, 11int),
        iterate_next(Rang::Red, (13int, 6int), 42) == (8int, 10int),
        iterate_next(Rang::Red, (13int, 6int), 43) == (8int, 9int),
        iterate_next(Rang::Red, (13int, 6int), 44) == (9int, 8int),
        iterate_next(Rang::Red, (13int, 6int), 45) == (10int, 8int),
        iterate_next(Rang::Red, (13int, 6int), 46) == (11int, 8int),
        iterate_next(Rang::Red, (13int, 6int), 47) == (12int, 8int),
        iterate_next(Rang::Red, (13int, 6int), 48) == (13int, 8int),
        iterate_next(Rang::Red, (13int, 6int), 49) == (14int, 8int),
        iterate_next(Rang::Red, (13int, 6int), 50) == (14int, 7int),
        iterate_next(Rang::Red, (13int, 6int), 51) == (13int, 7int),
        iterate_next(Rang::Red, (13int, 6int), 52) == (12int, 7int),
        iterate_next(Rang::Red, (13int, 6int), 53) == (11int, 7int),
        iterate_next(Rang::Red, (13int, 6int), 54) == (10int, 7int),
        iterate_next(Rang::Red, (13int, 6int), 55) == (9int, 7int),
        iterate_next(Rang::Red, (13int, 6int), 56) == (8int, 7int),
{
    assert(iterate_next(Rang::Red, (13int, 6int), 0) == (13int, 6int));
    lemma_iterate_snoc(Rang::Red, (13int, 6int), 0);
    assert(iterate_next(Rang::Red, (13int, 6int), 1) == (12int, 6int));
    lemma_iterate_snoc(Rang::Red, (13int, 6int), 1);
    assert(iterate_next(Rang::Red, (13int, 6int), 2) == (11int, 6int));
    lemma_iterate_snoc(Rang::Red, (13int, 6int), 2);
    assert(iterate_next(Rang::Red, (13int, 6int), 3) == (10int, 6int));
    lemma_iterate_snoc(Rang::Red, (13int, 6int), 3);
    assert(iterate_next(Rang::Red, (13int, 6int), 4) == (9int, 6int));
    lemma_iterate_snoc(Rang::Red, (13int, 6int), 4);
    assert(iterate_next(Rang::Red, (13int, 6int), 5) == (8int, 5int));
    lemma_iterate_snoc(Rang::Red, (13int, 6int), 5);
    assert(iterate_next(Rang::Red, (13int, 6int), 6) == (8int, 4int));
    lemma_iterate_snoc(Rang::Red, (13int, 6int), 6);
    assert(iterate_next(Rang::Red, (13int, 6int), 7) == (8int, 3int));
    lemma_iterate_snoc(Rang::Red, (13int, 6int), 7);
    assert(iterate_next(Rang::Red, (13int, 6int), 8) == (8int, 2int));
    lemma_iterate_snoc(Rang::Red, (13int, 6int), 8);
    assert(iterate_next(Rang::Red, (13int, 6int), 9) == (8int, 1int));
    lemma_iterate_snoc(Rang::Red, (13int, 6int), 9);
    assert(iterate_next(Rang::Red, (13int, 6int), 10) == (8int, 0int));
    lemma_iterate_snoc(Rang::Red, (13int, 6int), 10);
    assert(iterate_next(Rang::Red, (13int, 6int), 11) == (7int, 0int));
    lemma_iterate_snoc(Rang::Red, (13int, 6int), 11);
    assert(iterate_next(Rang::Red, (13int, 6int), 12) == (6int, 0int));
    lemma_iterate_snoc(Rang::Red, (13int, 6int), 12);
    assert(iterate_next(Rang::Red, (13int, 6int), 13) == (6int, 1int));
    lemma_iterate_snoc(Rang::Red, (13int, 6int), 13);
    assert(iterate_next(Rang::Red, (13int, 6int), 14) == (6int, 2int));
    lemma_iterate_snoc(Rang::Red, (13int, 6int), 14);
    assert(iterate_next(Rang::Red, (13int, 6int), 15) == (6int, 3int));
    lemma_iterate_snoc(Rang::Red, (13int, 6int), 15);
    assert(iterate_next(Rang::Red, (13int, 6int), 16) == (6int, 4int));
    lemma_iterate_snoc(Rang::Red, (13int, 6int), 16);
    assert(iterate_next(Rang::Red, (13int, 6int), 17) == (6int, 5int));
    lemma_iterate_snoc(Rang::Red, (13int, 6int), 17);
    assert(iterate_next(Rang::Red, (13int, 6int), 18) == (5int, 6int));
    lemma_iterate_snoc(Rang::Red, (13int, 6int), 18);
    assert(iterate_next(Rang::Red, (13int, 6int), 19) == (4int, 6int));
    lemma_iterate_snoc(Rang::Red, (13int, 6int), 19);
    assert(iterate_next(Rang::Red, (13int, 6int), 20) == (3int, 6int));
    lemma_iterate_snoc(Rang::Red, (13int, 6int), 20);
    assert(iterate_next(Rang::Red, (13int, 6int), 21) == (2int, 6int));
    lemma_iterate_snoc(Rang::Red, (13int, 6int), 21);
    assert(iterate_next(Rang::Red, (13int, 6int), 22) == (1int, 6int));
    lemma_iterate_snoc(Rang::Red, (13int, 6int), 22);
    assert(iterate_next(Rang::Red, (13int, 6int), 23) == (0int, 6int));
    lemma_iterate_snoc(Rang::Red, (13int, 6int), 23);
    assert(iterate_next(Rang::Red, (13int, 6int), 24) == (0int, 7int));
    lemma_iterate_snoc(Rang::Red, (13int, 6int), 24);
    assert(iterate_next(Rang::Red, (13int, 6int), 25) == (0int, 8int));
    lemma_iterate_snoc(Rang::Red, (13int, 6int), 25);
    assert(iterate_next(Rang::Red, (13int, 6int), 26) == (1int, 8int));
    lemma_iterate_snoc(Rang::Red, (13int, 6int), 26);
    assert(iterate_next(Rang::Red, (13int, 6int), 27) == (2int, 8int));
    lemma_iterate_snoc(Rang::Red, (13int, 6int), 27);
    assert(iterate_next(Rang::Red, (13int, 6int), 28) == (3int, 8int));
    lemma_iterate_snoc(Rang::Red, (13int, 6int), 28);
    assert(iterate_next(Rang::Red, (13int, 6int), 29) == (4int, 8int));
    lemma_iterate_snoc(Rang::Red, (13int, 6int), 29);
    assert(iterate_next(Rang::Red, (13int, 6int), 30) == (5int, 8int));
    lemma_iterate_snoc(Rang::Red, (13int, 6int), 30);
    assert(iterate_next(Rang::Red, (13int, 6int), 31) == (6int, 9int));
    lemma_iterate_snoc(Rang::Red, (13int, 6int), 31);
    assert(iterate_next(Rang::Red, (13int, 6int), 32) == (6int, 10int));
    lemma_iterate_snoc(Rang::Red, (13int, 6int), 32);
    assert(iterate_next(Rang::Red, (13int, 6int), 33) == (6int, 11int));
    lemma_iterate_snoc(Rang::Red, (13int, 6int), 33);
    assert(iterate_next(Rang::Red, (13int, 6int), 34) == (6int, 12int));
    lemma_iterate_snoc(Rang::Red, (13int, 6int), 34);
    assert(iterate_next(Rang::Red, (13int, 6int), 35) == (6int, 13int));
    lemma_iterate_snoc(Rang::Red, (13int, 6int), 35);
    assert(iterate_next(Rang::Red, (13int, 6int), 36) == (6int, 14int));
    lemma_iterate_snoc(Rang::Red, (13int, 6int), 36);
    assert(iterate_next(Rang::Red, (13int, 6int), 37) == (7int, 14int));
    lemma_iterate_snoc(Rang::Red, (13int, 6int), 37);
    assert(iterate_next(Rang::Red, (13int, 6int), 38) == (8int, 14int));
    lemma_iterate_snoc(Rang::Red, (13int, 6int), 38);
    assert(iterate_next(Rang::Red, (13int, 6int), 39) == (8int, 13int));
    lemma_iterate_snoc(Rang::Red, (13int, 6int), 39);
    assert(iterate_next(Rang::Red, (13int, 6int), 40) == (8int, 12int));
    lemma_iterate_snoc(Rang::Red, (13int, 6int), 40);
    assert(iterate_next(Rang::Red, (13int, 6int), 41) == (8int, 11int));
    lemma_iterate_snoc(Rang::Red, (13int, 6int), 41);
    assert(iterate_next(Rang::Red, (13int, 6int), 42) == (8int, 10int));
    lemma_iterate_snoc(Rang::Red, (13int, 6int), 42);
    assert(iterate_next(Rang::Red, (13int, 6int), 43) == (8int, 9int));
    lemma_iterate_snoc(Rang::Red, (13int, 6int), 43);
    assert(iterate_next(Rang::Red, (13int, 6int), 44) == (9int, 8int));
    lemma_iterate_snoc(Rang::Red, (13int, 6int), 44);
    assert(iterate_next(Rang::Red, (13int, 6int), 45) == (10int, 8int));
    lemma_iterate_snoc(Rang::Red, (13int, 6int), 45);
    assert(iterate_next(Rang::Red, (13int, 6int), 46) == (11int, 8int));
    lemma_iterate_snoc(Rang::Red, (13int, 6int), 46);
    assert(iterate_next(Rang::Red, (13int, 6int), 47) == (12int, 8int));
    lemma_iterate_snoc(Rang::Red, (13int, 6int), 47);
    assert(iterate_next(Rang::Red, (13int, 6int), 48) == (13int, 8int));
    lemma_iterate_snoc(Rang::Red, (13int, 6int), 48);
    assert(iterate_next(Rang::Red, (13int, 6int), 49) == (14int, 8int));
    lemma_iterate_snoc(Rang::Red, (13int, 6int), 49);
    assert(iterate_next(Rang::Red, (13int, 6int), 50) == (14int, 7int));
    lemma_iterate_snoc(Rang::Red, (13int, 6int), 50);
    assert(iterate_next(Rang::Red, (13int, 6int), 51) == (13int, 7int));
    lemma_iterate_snoc(Rang::Red, (13int, 6int), 51);
    assert(iterate_next(Rang::Red, (13int, 6int), 52) == (12int, 7int));
    lemma_iterate_snoc(Rang::Red, (13int, 6int), 52);
    assert(iterate_next(Rang::Red, (13int, 6int), 53) == (11int, 7int));
    lemma_iterate_snoc(Rang::Red, (13int, 6int), 53);
    assert(iterate_next(Rang::Red, (13int, 6int), 54) == (10int, 7int));
    lemma_iterate_snoc(Rang::Red, (13int, 6int), 54);
    assert(iterate_next(Rang::Red, (13int, 6int), 55) == (9int, 7int));
    lemma_iterate_snoc(Rang::Red, (13int, 6int), 55);
    assert(iterate_next(Rang::Red, (13int, 6int), 56) == (8int, 7int));
}

proof fn lemma_no_early_finish_red(n: nat)
    requires
        1 <= n < 56,
    ensures
        iterate_next(Rang::Red, (13int, 6int), n) != (8int, 7int),
{
    lemma_track_values_red();
    if n == 1 {
        assert(iterate_next(Rang::Red, (13int, 6int), 1) == (12int, 6int));
    } else if n == 2 {
        assert(iterate_next(Rang::Red, (13int, 6int), 2) == (11int, 6int));
    } else if n == 3 {
        assert(iterate_next(Rang::Red, (13int, 6int), 3) == (10int, 6int));
    } else if n == 4 {
        assert(iterate_next(Rang::Red, (13int, 6int), 4) == (9int, 6int));
    } else if n == 5 {
        assert(iterate_next(Rang::Red, (13int, 6int), 5) == (8int, 5int));
    } else if n == 6 {
        assert(iterate_next(Rang::Red, (13int, 6int), 6) == (8int, 4int));
    } else if n == 7 {
        assert(iterate_next(Rang::Red, (13int, 6int), 7) == (8int, 3int));
    } else if n == 8 {
        assert(iterate_next(Rang::Red, (13int, 6int), 8) == (8int, 2int));
    } else if n == 9 {
        assert(iterate_next(Rang::Red, (13int, 6int), 9) == (8int, 1int));
    } else if n == 10 {
        assert(iterate_next(Rang::Red, (13int, 6int), 10) == (8int, 0int));
    } else if n == 11 {
        assert(iterate_next(Rang::Red, (13int, 6int), 11) == (7int, 0int));
    } else if n == 12 {
        assert(iterate_next(Rang::Red, (13int, 6int), 12) == (6int, 0int));
    } else if n == 13 {
        assert(iterate_next(Rang::Red, (13int, 6int), 13) == (6int, 1int));
    } else if n == 14 {
        assert(iterate_next(Rang::Red, (13int, 6int), 14) == (6int, 2int));
    } else if n == 15 {
        assert(iterate_next(Rang::Red, (13int, 6int), 15) == (6int, 3int));
    } else if n == 16 {
        assert(iterate_next(Rang::Red, (13int, 6int), 16) == (6int, 4int));
    } else if n == 17 {
        assert(iterate_next(Rang::Red, (13int, 6int), 17) == (6int, 5int));
    } else if n == 18 {
        assert(iterate_next(Rang::Red, (13int, 6int), 18) == (5int, 6int));
    } else if n == 19 {
        assert(iterate_next(Rang::Red, (13int, 6int), 19) == (4int, 6int));
    } else if n == 20 {
        assert(iterate_next(Rang::Red, (13int, 6int), 20) == (3int, 6int));
    } else if n == 21 {
        assert(iterate_next(Rang::Red, (13int, 6int), 21) == (2int, 6int));
    } else if n == 22 {
        assert(iterate_next(Rang::Red, (13int, 6int), 22) == (1int, 6int));
    } else if n == 23 {
        assert(iterate_next(Rang::Red, (13int, 6int), 23) == (0int, 6int));
    } else if n == 24 {
        assert(iterate_next(Rang::Red, (13int, 6int), 24) == (0int, 7int));
    } else if n == 25 {
        assert(iterate_next(Rang::Red, (13int, 6int), 25) == (0int, 8int));
    } else if n == 26 {
        assert(iterate_next(Rang::Red, (13int, 6int), 26) == (1int, 8int));
    } else if n == 27 {
        assert(iterate_next(Rang::Red, (13int, 6int), 27) == (2int, 8int));
    } else if n == 28 {
        assert(iterate_next(Rang::Red, (13int, 6int), 28) == (3int, 8int));
    } else if n == 29 {
        assert(iterate_next(Rang::Red, (13int, 6int), 29) == (4int, 8int));
    } else if n == 30 {
        assert(iterate_next(Rang::Red, (13int, 6int), 30) == (5int, 8int));
    } else if n == 31 {
        assert(iterate_next(Rang::Red, (13int, 6int), 31) == (6int, 9int));
    } else if n == 32 {
        assert(iterate_next(Rang::Red, (13int, 6int), 32) == (6int, 10int));
    } else if n == 33 {
        assert(iterate_next(Rang::Red, (13int, 6int), 33) == (6int, 11int));
    } else if n == 34 {
        assert(iterate_next(Rang::Red, (13int, 6int), 34) == (6int, 12int));
    } else if n == 35 {
        assert(iterate_next(Rang::Red, (13int, 6int), 35) == (6int, 13int));
    } else if n == 36 {
        assert(iterate_next(Rang::Red, (13int, 6int), 36) == (6int, 14int));
    } else if n == 37 {
        assert(iterate_next(Rang::Red, (13int, 6int), 37) == (7int, 14int));
    } else if n == 38 {
        assert(iterate_next(Rang::Red, (13int, 6int), 38) == (8int, 14int));
    } else if n == 39 {
        assert(iterate_next(Rang::Red, (13int, 6int), 39) == (8int, 13int));
    } else if n == 40 {
        assert(iterate_next(Rang::Red, (13int, 6int), 40) == (8int, 12int));
    } else if n == 41 {
        assert(iterate_next(Rang::Red, (13int, 6int), 41) == (8int, 11int));
    } else if n == 42 {
        assert(iterate_next(Rang::Red, (13int, 6int), 42) == (8int, 10int));
    } else if n == 43 {
        assert(iterate_next(Rang::Red, (13int, 6int), 43) == (8int, 9int));
    } else if n == 44 {
        assert(iterate_next(Rang::Red, (13int, 6int), 44) == (9int, 8int));
    } else if n == 45 {
        assert(iterate_next(Rang::Red, (13int, 6int), 45) == (10int, 8int));
    } else if n == 46 {
        assert(iterate_next(Rang::Red, (13int, 6int), 46) == (11int, 8int));
    } else if n == 47 {
        assert(iterate_next(Rang::Red, (13int, 6int), 47) == (12int, 8int));
    } else if n == 48 {
        assert(iterate_next(Rang::Red, (13int, 6int), 48) == (13int, 8int));
    } else if n == 49 {
        assert(iterate_next(Rang::Red, (13int, 6int), 49) == (14int, 8int));
    } else if n == 50 {
        assert(iterate_next(Rang::Red, (13int, 6int), 50) == (14int, 7int));
    } else if n == 51 {
        assert(iterate_next(Rang::Red, (13int, 6int), 51) == (13int, 7int));
    } else if n == 52 {
        assert(iterate_next(Rang::Red, (13int, 6int), 52) == (12int, 7int));
    } else if n == 53 {
        assert(iterate_next(Rang::Red, (13int, 6int), 53) == (11int, 7int));
    } else if n == 54 {
        assert(iterate_next(Rang::Red, (13int, 6int), 54) == (10int, 7int));
    } else if n == 55 {
        assert(iterate_next(Rang::Red, (13int, 6int), 55) == (9int, 7int));
    } else {
        assert(false);
    }
}

proof fn lemma_track_values_green()
    ensures
        iterate_next(Rang::Green, (6int, 1int), 0) == (6int, 1int),
        iterate_next(Rang::Green, (6int, 1int), 1) == (6int, 2int),
        iterate_next(Rang::Green, (6int, 1int), 2) == (6int, 3int),
        iterate_next(Rang::Green, (6int, 1int), 3) == (6int, 4int),
        iterate_next(Rang::Green, (6int, 1int), 4) == (6int, 5int),
        iterate_next(Rang::Green, (6int, 1int), 5) == (5int, 6int),
        iterate_next(Rang::Green, (6int, 1int), 6) == (4int, 6int),
        iterate_next(Rang::Green, (6int, 1int), 7) == (3int, 6int),
        iterate_next(Rang::Green, (6int, 1int), 8) == (2int, 6int),
        iterate_next(Rang::Green, (6int, 1int), 9) == (1int, 6int),
        iterate_next(Rang::Green, (6int, 1int), 10) == (0int, 6int),
        iterate_next(Rang::Green, (6int, 1int), 11) == (0int, 7int),
        iterate_next(Rang::Green, (6int, 1int), 12) == (0int, 8int),
        iterate_next(Rang::Green, (6int, 1int), 13) == (1int, 8int),
        iterate_next(Rang::Green, (6int, 1int), 14) == (2int, 8int),
        iterate_next(Rang::Green, (6int, 1int), 15) == (3int, 8int),
        iterate_next(Rang::Green, (6int, 1int), 16) == (4int, 8int),
        iterate_next(Rang::Green, (6int, 1int), 17) == (5int, 8int),
        iterate_next(Rang::Green, (6int, 1int), 18) == (6int, 9int),
        iterate_next(Rang::Green, (6int, 1int), 19) == (6int, 10int),
        iterate_next(Rang::Green, (6int, 1int), 20) == (6int, 11int),
        iterate_next(Rang::Green, (6int, 1int), 21) == (6int, 12int),
        iterate_next(Rang::Green, (6int, 1int), 22) == (6int, 13int),
        iterate_next(Rang::Green, (6int, 1int), 23) == (6int, 14int),
        iterate_next(Rang::Green, (6int, 1int), 24) == (7int, 14int),
        iterate_next(Rang::Green, (6int, 1int), 25) == (8int, 14int),
        iterate_next(Rang::Green, (6int, 1int), 26) == (8int, 13int),
        iterate_next(Rang::Green, (6int, 1int), 27) == (8int, 12int),
        iterate_next(Rang::Green, (6int, 1int), 28) == (8int, 11int),
        iterate_next(Rang::Green, (6int, 1int), 29) == (8int, 10int),
        iterate_next(Rang::Green, (6int, 1int), 30) == (8int, 9int),
        iterate_next(Rang::Green, (6int, 1int), 31) == (9int, 8int),
        iterate_next(Rang::Green, (6int, 1int), 32) == (10int, 8int),
        iterate_next(Rang::Green, (6int, 1int), 33) == (11int, 8int),
        iterate_next(Rang::Green, (6int, 1int), 34) == (12int, 8int),
        iterate_next(Rang::Green, (6int, 1int), 35) == (13int, 8int),
        iterate_next(Rang::Green, (6int, 1int), 36) == (14int, 8int),
        iterate_next(Rang::Green, (6int, 1int), 37) == (14int, 7int),
        iterate_next(Rang::Green, (6int, 1int), 38) == (14int, 6int),
        iterate_next(Rang::Green, (6int, 1int), 39) == (13int, 6int),
        iterate_next(Rang::Green, (6int, 1int), 40) == (12int, 6int),
        iterate_next(Rang::Green, (6int, 1int), 41) == (11int, 6int),
        iterate_next(Rang::Green, (6int, 1int), 42) == (10int, 6int),
        iterate_next(Rang::Green, (6int, 1int), 43) == (9int, 6int),
        iterate_next(Rang::Green, (6int, 1int), 44) == (8int, 5int),
        iterate_next(Rang::Green, (6int, 1int), 45) == (8int, 4int),
        iterate_next(Rang::Green, (6int, 1int), 46) == (8int, 3int),
        iterate_next(Rang::Green, (6int, 1int), 47) == (8int, 2int),
        iterate_next(Rang::Green, (6int, 1int), 48) == (8int, 1int),
        iterate_next(Rang::Green, (6int, 1int), 49) == (8int, 0int),
        iterate_next(Rang::Green, (6int, 1int), 50) == (7int, 0int),
        iterate_next(Rang::Green, (6int, 1int), 51) == (7int, 1int),
        iterate_next(Rang::Green, (6int, 1int), 52) == (7int, 2int),
        iterate_next(Rang::Green, (6int, 1int), 53) == (7int, 3int),
        iterate_next(Rang::Green, (6int, 1int), 54) == (7int, 4int),
        iterate_next(Rang::Green, (6int, 1int), 55) == (7int, 5int),
        iterate_next(Rang::Green, (6int, 1int), 56) == (7int, 6int),
{
    assert(iterate_next(Rang::Green, (6int, 1int), 0) == (6int, 1int));
    lemma_iterate_snoc(Rang::Green, (6int, 1int), 0);
    assert(iterate_next(Rang::Green, (6int, 1int), 1) == (6int, 2int));
    lemma_iterate_snoc(Rang::Green, (6int, 1int), 1);
    assert(iterate_next(Rang::Green, (6int, 1int), 2) == (6int, 3int));
    lemma_iterate_snoc(Rang::Green, (6int, 1int), 2);
    assert(iterate_next(Rang::Green, (6int, 1int), 3) == (6int, 4int));
    lemma_iterate_snoc(Rang::Green, (6int, 1int), 3);
    assert(iterate_next(Rang::Green, (6int, 1int), 4) == (6int, 5int));
    lemma_iterate_snoc(Rang::Green, (6int, 1int), 4);
    assert(iterate_next(Rang::Green, (6int, 1int), 5) == (5int, 6int));
    lemma_iterate_snoc(Rang::Green, (6int, 1int), 5);
    assert(iterate_next(Rang::Green, (6int, 1int), 6) == (4int, 6int));
    lemma_iterate_snoc(Rang::Green, (6int, 1int), 6);
    assert(iterate_next(Rang::Green, (6int, 1int), 7) == (3int, 6int));
    lemma_iterate_snoc(Rang::Green, (6int, 1int), 7);
    assert(iterate_next(Rang::Green, (6int, 1int), 8) == (2int, 6int));
    lemma_iterate_snoc(Rang::Green, (6int, 1int), 8);
    assert(iterate_next(Rang::Green, (6int, 1int), 9) == (1int, 6int));
    lemma_iterate_snoc(Rang::Green, (6int, 1int), 9);
    assert(iterate_next(Rang::Green, (6int, 1int), 10) == (0int, 6int));
    lemma_iterate_snoc(Rang::Green, (6int, 1int), 10);
    assert(iterate_next(Rang::Green, (6int, 1int), 11) == (0int, 7int));
    lemma_iterate_snoc(Rang::Green, (6int, 1int), 11);
    assert(iterate_next(Rang::Green, (6int, 1int), 12) == (0int, 8int));
    lemma_iterate_snoc(Rang::Green, (6int, 1int), 12);
    assert(iterate_next(Rang::Green, (6int, 1int), 13) == (1int, 8int));
    lemma_iterate_snoc(Rang::Green, (6int, 1int), 13);
    assert(iterate_next(Rang::Green, (6int, 1int), 14) == (2int, 8int));
    lemma_iterate_snoc(Rang::Green, (6int, 1int), 14);
    assert(iterate_next(Rang::Green, (6int, 1int), 15) == (3int, 8int));
    lemma_iterate_snoc(Rang::Green, (6int, 1int), 15);
    assert(iterate_next(Rang::Green, (6int, 1int), 16) == (4int, 8int));
    lemma_iterate_snoc(Rang::Green, (6int, 1int), 16);
    assert(iterate_next(Rang::Green, (6int, 1int), 17) == (5int, 8int));
    lemma_iterate_snoc(Rang::Green, (6int, 1int), 17);
    assert(iterate_next(Rang::Green, (6int, 1int), 18) == (6int, 9int));
    lemma_iterate_snoc(Rang::Green, (6int, 1int), 18);
    assert(iterate_next(Rang::Green, (6int, 1int), 19) == (6int, 10int));
    lemma_iterate_snoc(Rang::Green, (6int, 1int), 19);
    assert(iterate_next(Rang::Green, (6int, 1int), 20) == (6int, 11int));
    lemma_iterate_snoc(Rang::Green, (6int, 1int), 20);
    assert(iterate_next(Rang::Green, (6int, 1int), 21) == (6int, 12int));
    lemma_iterate_snoc(Rang::Green, (6int, 1int), 21);
    assert(iterate_next(Rang::Green, (6int, 1int), 22) == (6int, 13int));
    lemma_iterate_snoc(Rang::Green, (6int, 1int), 22);
    assert(iterate_next(Rang::Green, (6int, 1int), 23) == (6int, 14int));
    lemma_iterate_snoc(Rang::Green, (6int, 1int), 23);
    assert(iterate_next(Rang::Green, (6int, 1int), 24) == (7int, 14int));
    lemma_iterate_snoc(Rang::Green, (6int, 1int), 24);
    assert(iterate_next(Rang::Green, (6int, 1int), 25) == (8int, 14int));
    lemma_iterate_snoc(Rang::Green, (6int, 1int), 25);
    assert(iterate_next(Rang::Green, (6int, 1int), 26) == (8int, 13int));
    lemma_iterate_snoc(Rang::Green, (6int, 1int), 26);
    assert(iterate_next(Rang::Green, (6int, 1int), 27) == (8int, 12int));
    lemma_iterate_snoc(Rang::Green, (6int, 1int), 27);
    assert(iterate_next(Rang::Green, (6int, 1int), 28) == (8int, 11int));
    lemma_iterate_snoc(Rang::Green, (6int, 1int), 28);
    assert(iterate_next(Rang::Green, (6int, 1int), 29) == (8int, 10int));
    lemma_iterate_snoc(Rang::Green, (6int, 1int), 29);
    assert(iterate_next(Rang::Green, (6int, 1int), 30) == (8int, 9int));
    lemma_iterate_snoc(Rang::Green, (6int, 1int), 30);
    assert(iterate_next(Rang::Green, (6int, 1int), 31) == (9int, 8int));
    lemma_iterate_snoc(Rang::Green, (6int, 1int), 31);
    assert(iterate_next(Rang::Green, (6int, 1int), 32) == (10int, 8int));
    lemma_iterate_snoc(Rang::Green, (6int, 1int), 32);
    assert(iterate_next(Rang::Green, (6int, 1int), 33) == (11int, 8int));
    lemma_iterate_snoc(Rang::Green, (6int, 1int), 33);
    assert(iterate_next(Rang::Green, (6int, 1int), 34) == (12int, 8int));
    lemma_iterate_snoc(Rang::Green, (6int, 1int), 34);
    assert(iterate_next(Rang::Green, (6int, 1int), 35) == (13int, 8int));
    lemma_iterate_snoc(Rang::Green, (6int, 1int), 35);
    assert(iterate_next(Rang::Green, (6int, 1int), 36) == (14int, 8int));
    lemma_iterate_snoc(Rang::Green, (6int, 1int), 36);
    assert(iterate_next(Rang::Green, (6int, 1int), 37) == (14int, 7int));
    lemma_iterate_snoc(Rang::Green, (6int, 1int), 37);
    assert(iterate_next(Rang::Green, (6int, 1int), 38) == (14int, 6int));
    lemma_iterate_snoc(Rang::Green, (6int, 1int), 38);
    assert(iterate_next(Rang::Green, (6int, 1int), 39) == (13int, 6int));
    lemma_iterate_snoc(Rang::Green, (6int, 1int), 39);
    assert(iterate_next(Rang::Green, (6int, 1int), 40) == (12int, 6int));
    lemma_iterate_snoc(Rang::Green, (6int, 1int), 40);
    assert(iterate_next(Rang::Green, (6int, 1int), 41) == (11int, 6int));
    lemma_iterate_snoc(Rang::Green, (6int, 1int), 41);
    assert(iterate_next(Rang::Green, (6int, 1int), 42) == (10int, 6int));
    lemma_iterate_snoc(Rang::Green, (6int, 1int), 42);
    assert(iterate_next(Rang::Green, (6int, 1int), 43) == (9int, 6int));
    lemma_iterate_snoc(Rang::Green, (6int, 1int), 43);
    assert(iterate_next(Rang::Green, (6int, 1int), 44) == (8int, 5int));
    lemma_iterate_snoc(Rang::Green, (6int, 1int), 44);
    assert(iterate_next(Rang::Green, (6int, 1int), 45) == (8int, 4int));
    lemma_iterate_snoc(Rang::Green, (6int, 1int), 45);
    assert(iterate_next(Rang::Green, (6int, 1int), 46) == (8int, 3int));
    lemma_iterate_snoc(Rang::Green, (6int, 1int), 46);
    assert(iterate_next(Rang::Green, (6int, 1int), 47) == (8int, 2int));
    lemma_iterate_snoc(Rang::Green, (6int, 1int), 47);
    assert(iterate_next(Rang::Green, (6int, 1int), 48) == (8int, 1int));
    lemma_iterate_snoc(Rang::Green, (6int, 1int), 48);
    assert(iterate_next(Rang::Green, (6int, 1int), 49) == (8int, 0int));
    lemma_iterate_snoc(Rang::Green, (6int, 1int), 49);
    assert(iterate_next(Rang::Green, (6int, 1int), 50) == (7int, 0int));
    lemma_iterate_snoc(Rang::Green, (6int, 1int), 50);
    assert(iterate_next(Rang::Green, (6int, 1int), 51) == (7int, 1int));
    lemma_iterate_snoc(Rang::Green, (6int, 1int), 51);
    assert(iterate_next(Rang::Green, (6int, 1int), 52) == (7int, 2int));
    lemma_iterate_snoc(Rang::Green, (6int, 1int), 52);
    assert(iterate_next(Rang::Green, (6int, 1int), 53) == (7int, 3int));
    lemma_iterate_snoc(Rang::Green, (6int, 1int), 53);
    assert(iterate_next(Rang::Green, (6int, 1int), 54) == (7int, 4int));
    lemma_iterate_snoc(Rang::Green, (6int, 1int), 54);
    assert(iterate_next(Rang::Green, (6int, 1int), 55) == (7int, 5int));
    lemma_iterate_snoc(Rang::Green, (6int, 1int), 55);
    assert(iterate_next(Rang::Green, (6int, 1int), 56) == (7int, 6int));
}

proof fn lemma_no_early_finish_green(n: nat)
    requires
        1 <= n < 56,
    ensures
        iterate_next(Rang::Green, (6int, 1int), n) != (7int, 6int),
{
    lemma_track_values_green();
    if n == 1 {
        assert(iterate_next(Rang::Green, (6int, 1int), 1) == (6int, 2int));
    } else if n == 2 {
        assert(iterate_next(Rang::Green, (6int, 1int), 2) == (6int, 3int));
    } else if n == 3 {
        assert(iterate_next(Rang::Green, (6int, 1int), 3) == (6int, 4int));
    } else if n == 4 {
        assert(iterate_next(Rang::Green, (6int, 1int), 4) == (6int, 5int));
    } else if n == 5 {
        assert(iterate_next(Rang::Green, (6int, 1int), 5) == (5int, 6int));
    } else if n == 6 {
        assert(iterate_next(Rang::Green, (6int, 1int), 6) == (4int, 6int));
    } else if n == 7 {
        assert(iterate_next(Rang::Green, (6int, 1int), 7) == (3int, 6int));
    } else if n == 8 {
        assert(iterate_next(Rang::Green, (6int, 1int), 8) == (2int, 6int));
    } else if n == 9 {
        assert(iterate_next(Rang::Green, (6int, 1int), 9) == (1int, 6int));
    } else if n == 10 {
        assert(iterate_next(Rang::Green, (6int, 1int), 10) == (0int, 6int));
    } else if n == 11 {
        assert(iterate_next(Rang::Green, (6int, 1int), 11) == (0int, 7int));
    } else if n == 12 {
        assert(iterate_next(Rang::Green, (6int, 1int), 12) == (0int, 8int));
    } else if n == 13 {
        assert(iterate_next(Rang::Green, (6int, 1int), 13) == (1int, 8int));
    } else if n == 14 {
        assert(iterate_next(Rang::Green, (6int, 1int), 14) == (2int, 8int));
    } else if n == 15 {
        assert(iterate_next(Rang::Green, (6int, 1int), 15) == (3int, 8int));
    } else if n == 16 {
        assert(iterate_next(Rang::Green, (6int, 1int), 16) == (4int, 8int));
    } else if n == 17 {
        assert(iterate_next(Rang::Green, (6int, 1int), 17) == (5int, 8int));
    } else if n == 18 {
        assert(iterate_next(Rang::Green, (6int, 1int), 18) == (6int, 9int));
    } else if n == 19 {
        assert(iterate_next(Rang::Green, (6int, 1int), 19) == (6int, 10int));
    } else if n == 20 {
        assert(iterate_next(Rang::Green, (6int, 1int), 20) == (6int, 11int));
    } else if n == 21 {
        assert(iterate_next(Rang::Green, (6int, 1int), 21) == (6int, 12int));
    } else if n == 22 {
        assert(iterate_next(Rang::Green, (6int, 1int), 22) == (6int, 13int));
    } else if n == 23 {
        assert(iterate_next(Rang::Green, (6int, 1int), 23) == (6int, 14int));
    } else if n == 24 {
        assert(iterate_next(Rang::Green, (6int, 1int), 24) == (7int, 14int));
    } else if n == 25 {
        assert(iterate_next(Rang::Green, (6int, 1int), 25) == (8int, 14int));
    } else if n == 26 {
        assert(iterate_next(Rang::Green, (6int, 1int), 26) == (8int, 13int));
    } else if n == 27 {
        assert(iterate_next(Rang::Green, (6int, 1int), 27) == (8int, 12int));
    } else if n == 28 {
        assert(iterate_next(Rang::Green, (6int, 1int), 28) == (8int, 11int));
    } else if n == 29 {
        assert(iterate_next(Rang::Green, (6int, 1int), 29) == (8int, 10int));
    } else if n == 30 {
        assert(iterate_next(Rang::Green, (6int, 1int), 30) == (8int, 9int));
    } else if n == 31 {
        assert(iterate_next(Rang::Green, (6int, 1int), 31) == (9int, 8int));
    } else if n == 32 {
        assert(iterate_next(Rang::Green, (6int, 1int), 32) == (10int, 8int));
    } else if n == 33 {
        assert(iterate_next(Rang::Green, (6int, 1int), 33) == (11int, 8int));
    } else if n == 34 {
        assert(iterate_next(Rang::Green, (6int, 1int), 34) == (12int, 8int));
    } else if n == 35 {
        assert(iterate_next(Rang::Green, (6int, 1int), 35) == (13int, 8int));
    } else if n == 36 {
        assert(iterate_next(Rang::Green, (6int, 1int), 36) == (14int, 8int));
    } else if n == 37 {
        assert(iterate_next(Rang::Green, (6int, 1int), 37) == (14int, 7int));
    } else if n == 38 {
        assert(iterate_next(Rang::Green, (6int, 1int), 38) == (14int, 6int));
    } else if n == 39 {
        assert(iterate_next(Rang::Green, (6int, 1int), 39) == (13int, 6int));
    } else if n == 40 {
        assert(iterate_next(Rang::Green, (6int, 1int), 40) == (12int, 6int));
    } else if n == 41 {
        assert(iterate_next(Rang::Green, (6int, 1int), 41) == (11int, 6int));
    } else if n == 42 {
        assert(iterate_next(Rang::Green, (6int, 1int), 42) == (10int, 6int));
    } else if n == 43 {
        assert(iterate_next(Rang::Green, (6int, 1int), 43) == (9int, 6int));
    } else if n == 44 {
        assert(iterate_next(Rang::Green, (6int, 1int), 44) == (8int, 5int));
    } else if n == 45 {
        assert(iterate_next(Rang::Green, (6int, 1int), 45) == (8int, 4int));
    } else if n == 46 {
        assert(iterate_next(Rang::Green, (6int, 1int), 46) == (8int, 3int));
    } else if n == 47 {
        assert(iterate_next(Rang::Green, (6int, 1int), 47) == (8int, 2int));
    } else if n == 48 {
        assert(iterate_next(Rang::Green, (6int, 1int), 48) == (8int, 1int));
    } else if n == 49 {
        assert(iterate_next(Rang::Green, (6int, 1int), 49) == (8int, 0int));
    } else if n == 50 {
        assert(iterate_next(Rang::Green, (6int, 1int), 50) == (7int, 0int));
    } else if n == 51 {
        assert(iterate_next(Rang::Green, (6int, 1int), 51) == (7int, 1int));
    } else if n == 52 {
        assert(iterate_next(Rang::Green, (6int, 1int), 52) == (7int, 2int));
    } else if n == 53 {
        assert(iterate_next(Rang::Green, (6int, 1int), 53) == (7int, 3int));
    } else if n == 54 {
        assert(iterate_next(Rang::Green, (6int, 1int), 54) == (7int, 4int));
    } else if n == 55 {
        assert(iterate_next(Rang::Green, (6int, 1int), 55) == (7int, 5int));
    } else {
        assert(false);
    }
}

proof fn lemma_track_values_yellow()
    ensures
        iterate_next(Rang::Yellow, (1int, 8int), 0) == (1int, 8int),
        iterate_next(Rang::Yellow, (1int, 8int), 1) == (2int, 8int),
        iterate_next(Rang::Yellow, (1int, 8int), 2) == (3int, 8int),
        iterate_next(Rang::Yellow, (1int, 8int), 3) == (4int, 8int),
        iterate_next(Rang::Yellow, (1int, 8int), 4) == (5int, 8int),
        iterate_next(Rang::Yellow, (1int, 8int), 5) == (6int, 9int),
        iterate_next(Rang::Yellow, (1int, 8int), 6) == (6int, 10int),
        iterate_next(Rang::Yellow, (1int, 8int), 7) == (6int, 11int),
        iterate_next(Rang::Yellow, (1int, 8int), 8) == (6int, 12int),
        iterate_next(Rang::Yellow, (1int, 8int), 9) == (6int, 13int),
        iterate_next(Rang::Yellow, (1int, 8int), 10) == (6int, 14int),
        iterate_next(Rang::Yellow, (1int, 8int), 11) == (7int, 14int),
        iterate_next(Rang::Yellow, (1int, 8int), 12) == (8int, 14int),
        iterate_next(Rang::Yellow, (1int, 8int), 13) == (8int, 13int),
        iterate_next(Rang::Yellow, (1int, 8int), 14) == (8int, 12int),
        iterate_next(Rang::Yellow, (1int, 8int), 15) == (8int, 11int),
        iterate_next(Rang::Yellow, (1int, 8int), 16) == (8int, 10int),
        iterate_next(Rang::Yellow, (1int, 8int), 17) == (8int, 9int),
        iterate_next(Rang::Yellow, (1int, 8int), 18) == (9int, 8int),
        iterate_next(Rang::Yellow, (1int, 8int), 19) == (10int, 8int),
        iterate_next(Rang::Yellow, (1int, 8int), 20) == (11int, 8int),
        iterate_next(Rang::Yellow, (1int, 8int), 21) == (12int, 8int),
        iterate_next(Rang::Yellow, (1int, 8int), 22) == (13int, 8int),
        iterate_next(Rang::Yellow, (1int, 8int), 23) == (14int, 8int),
        iterate_next(Rang::Yellow, (1int, 8int), 24) == (14int, 7int),
        iterate_next(Rang::Yellow, (1int, 8int), 25) == (14int, 6int),
        iterate_next(Rang::Yellow, (1int, 8int), 26) == (13int, 6int),
        iterate_next(Rang::Yellow, (1int, 8int), 27) == (12int, 6int),
        iterate_next(Rang::Yellow, (1int, 8int), 28) == (11int, 6int),
        iterate_next(Rang::Yellow, (1int, 8int), 29) == (10int, 6int),
        iterate_next(Rang::Yellow, (1int, 8int), 30) == (9int, 6int),
        iterate_next(Rang::Yellow, (1int, 8int), 31) == (8int, 5int),
        iterate_next(Rang::Yellow, (1int, 8int), 32) == (8int, 4int),
        iterate_next(Rang::Yellow, (1int, 8int), 33) == (8int, 3int),
        iterate_next(Rang::Yellow, (1int, 8int), 34) == (8int, 2int),
        iterate_next(Rang::Yellow, (1int, 8int), 35) == (8int, 1int),
        iterate_next(Rang::Yellow, (1int, 8int), 36) == (8int, 0int),
        iterate_next(Rang::Yellow, (1int, 8int), 37) == (7int, 0int),
        iterate_next(Rang::Yellow, (1int, 8int), 38) == (6int, 0int),
        iterate_next(Rang::Yellow, (1int, 8int), 39) == (6int, 1int),
        iterate_next(Rang::Yellow, (1int, 8int), 40) == (6int, 2int),
        iterate_next(Rang::Yellow, (1int, 8int), 41) == (6int, 3int),
        iterate_next(Rang::Yellow, (1int, 8int), 42) == (6int, 4int),
        iterate_next(Rang::Yellow, (1int, 8int), 43) == (6int, 5int),
        iterate_next(Rang::Yellow, (1int, 8int), 44) == (5int, 6int),
        iterate_next(Rang::Yellow, (1int, 8int), 45) == (4int, 6int),
        iterate_next(Rang::Yellow, (1int, 8int), 46) == (3int, 6int),
        iterate_next(Rang::Yellow, (1int, 8int), 47) == (2int, 6int),
        iterate_next(Rang::Yellow, (1int, 8int), 48) == (1int, 6int),
        iterate_next(Rang::Yellow, (1int, 8int), 49) == (0int, 6int),
        iterate_next(Rang::Yellow, (1int, 8int), 50) == (0int, 7int),
        iterate_next(Rang::Yellow, (1int, 8int), 51) == (1int, 7int),
        iterate_next(Rang::Yellow, (1int, 8int), 52) == (2int, 7int),
        iterate_next(Rang::Yellow, (1int, 8int), 53) == (3int, 7int),
        iterate_next(Rang::Yellow, (1int, 8int), 54) == (4int, 7int),
        iterate_next(Rang::Yellow, (1int, 8int), 55) == (5int, 7int),
        iterate_next(Rang::Yellow, (1int, 8int), 56) == (6int, 7int),
{
    assert(iterate_next(Rang::Yellow, (1int, 8int), 0) == (1int, 8int));
    lemma_iterate_snoc(Rang::Yellow, (1int, 8int), 0);
    assert(iterate_next(Rang::Yellow, (1int, 8int), 1) == (2int, 8int));
    lemma_iterate_snoc(Rang::Yellow, (1int, 8int), 1);
    assert(iterate_next(Rang::Yellow, (1int, 8int), 2) == (3int, 8int));
    lemma_iterate_snoc(Rang::Yellow, (1int, 8int), 2);
    assert(iterate_next(Rang::Yellow, (1int, 8int), 3) == (4int, 8int));
    lemma_iterate_snoc(Rang::Yellow, (1int, 8int), 3);
    assert(iterate_next(Rang::Yellow, (1int, 8int), 4) == (5int, 8int));
    lemma_iterate_snoc(Rang::Yellow, (1int, 8int), 4);
    assert(iterate_next(Rang::Yellow, (1int, 8int), 5) == (6int, 9int));
    lemma_iterate_snoc(Rang::Yellow, (1int, 8int), 5);
    assert(iterate_next(Rang::Yellow, (1int, 8int), 6) == (6int, 10int));
    lemma_iterate_snoc(Rang::Yellow, (1int, 8int), 6);
    assert(iterate_next(Rang::Yellow, (1int, 8int), 7) == (6int, 11int));
    lemma_iterate_snoc(Rang::Yellow, (1int, 8int), 7);
    assert(iterate_next(Rang::Yellow, (1int, 8int), 8) == (6int, 12int));
    lemma_iterate_snoc(Rang::Yellow, (1int, 8int), 8);
    assert(iterate_next(Rang::Yellow, (1int, 8int), 9) == (6int, 13int));
    lemma_iterate_snoc(Rang::Yellow, (1int, 8int), 9);
    assert(iterate_next(Rang::Yellow, (1int, 8int), 10) == (6int, 14int));
    lemma_iterate_snoc(Rang::Yellow, (1int, 8int), 10);
    assert(iterate_next(Rang::Yellow, (1int, 8int), 11) == (7int, 14int));
    lemma_iterate_snoc(Rang::Yellow, (1int, 8int), 11);
    assert(iterate_next(Rang::Yellow, (1int, 8int), 12) == (8int, 14int));
    lemma_iterate_snoc(Rang::Yellow, (1int, 8int), 12);
    assert(iterate_next(Rang::Yellow, (1int, 8int), 13) == (8int, 13int));
    lemma_iterate_snoc(Rang::Yellow, (1int, 8int), 13);
    assert(iterate_next(Rang::Yellow, (1int, 8int), 14) == (8int, 12int));
    lemma_iterate_snoc(Rang::Yellow, (1int, 8int), 14);
    assert(iterate_next(Rang::Yellow, (1int, 8int), 15) == (8int, 11int));
    lemma_iterate_snoc(Rang::Yellow, (1int, 8int), 15);
    assert(iterate_next(Rang::Yellow, (1int, 8int), 16) == (8int, 10int));
    lemma_iterate_snoc(Rang::Yellow, (1int, 8int), 16);
    assert(iterate_next(Rang::Yellow, (1int, 8int), 17) == (8int, 9int));
    lemma_iterate_snoc(Rang::Yellow, (1int, 8int), 17);
    assert(iterate_next(Rang::Yellow, (1int, 8int), 18) == (9int, 8int));
    lemma_iterate_snoc(Rang::Yellow, (1int, 8int), 18);
    assert(iterate_next(Rang::Yellow, (1int, 8int), 19) == (10int, 8int));
    lemma_iterate_snoc(Rang::Yellow, (1int, 8int), 19);
    assert(iterate_next(Rang::Yellow, (1int, 8int), 20) == (11int, 8int));
    lemma_iterate_snoc(Rang::Yellow, (1int, 8int), 20);
    assert(iterate_next(Rang::Yellow, (1int, 8int), 21) == (12int, 8int));
    lemma_iterate_snoc(Rang::Yellow, (1int, 8int), 21);
    assert(iterate_next(Rang::Yellow, (1int, 8int), 22) == (13int, 8int));
    lemma_iterate_snoc(Rang::Yellow, (1int, 8int), 22);
    assert(iterate_next(Rang::Yellow, (1int, 8int), 23) == (14int, 8int));
    lemma_iterate_snoc(Rang::Yellow, (1int, 8int), 23);
    assert(iterate_next(Rang::Yellow, (1int, 8int), 24) == (14int, 7int));
    lemma_iterate_snoc(Rang::Yellow, (1int, 8int), 24);
    assert(iterate_next(Rang::Yellow, (1int, 8int), 25) == (14int, 6int));
    lemma_iterate_snoc(Rang::Yellow, (1int, 8int), 25);
    assert(iterate_next(Rang::Yellow, (1int, 8int), 26) == (13int, 6int));
    lemma_iterate_snoc(Rang::Yellow, (1int, 8int), 26);
    assert(iterate_next(Rang::Yellow, (1int, 8int), 27) == (12int, 6int));
    lemma_iterate_snoc(Rang::Yellow, (1int, 8int), 27);
    assert(iterate_next(Rang::Yellow, (1int, 8int), 28) == (11int, 6int));
    lemma_iterate_snoc(Rang::Yellow, (1int, 8int), 28);
    assert(iterate_next(Rang::Yellow, (1int, 8int), 29) == (10int, 6int));
    lemma_iterate_snoc(Rang::Yellow, (1int, 8int), 29);
    assert(iterate_next(Rang::Yellow, (1int, 8int), 30) == (9int, 6int));
    lemma_iterate_snoc(Rang::Yellow, (1int, 8int), 30);
    assert(iterate_next(Rang::Yellow, (1int, 8int), 31) == (8int, 5int));
    lemma_iterate_snoc(Rang::Yellow, (1int, 8int), 31);
    assert(iterate_next(Rang::Yellow, (1int, 8int), 32) == (8int, 4int));
    lemma_iterate_snoc(Rang::Yellow, (1int, 8int), 32);
    assert(iterate_next(Rang::Yellow, (1int, 8int), 33) == (8int, 3int));
    lemma_iterate_snoc(Rang::Yellow, (1int, 8int), 33);
    assert(iterate_next(Rang::Yellow, (1int, 8int), 34) == (8int, 2int));
    lemma_iterate_snoc(Rang::Yellow, (1int, 8int), 34);
    assert(iterate_next(Rang::Yellow, (1int, 8int), 35) == (8int, 1int));
    lemma_iterate_snoc(Rang::Yellow, (1int, 8int), 35);
    assert(iterate_next(Rang::Yellow, (1int, 8int), 36) == (8int, 0int));
    lemma_iterate_snoc(Rang::Yellow, (1int, 8int), 36);
    assert(iterate_next(Rang::Yellow, (1int, 8int), 37) == (7int, 0int));
    lemma_iterate_snoc(Rang::Yellow, (1int, 8int), 37);
    assert(iterate_next(Rang::Yellow, (1int, 8int), 38) == (6int, 0int));
    lemma_iterate_snoc(Rang::Yellow, (1int, 8int), 38);
    assert(iterate_next(Rang::Yellow, (1int, 8int), 39) == (6int, 1int));
    lemma_iterate_snoc(Rang::Yellow, (1int, 8int), 39);
    assert(iterate_next(Rang::Yellow, (1int, 8int), 40) == (6int, 2int));
    lemma_iterate_snoc(Rang::Yellow, (1int, 8int), 40);
    assert(iterate_next(Rang::Yellow, (1int, 8int), 41) == (6int, 3int));
    lemma_iterate_snoc(Rang::Yellow, (1int, 8int), 41);
    assert(iterate_next(Rang::Yellow, (1int, 8int), 42) == (6int, 4int));
    lemma_iterate_snoc(Rang::Yellow, (1int, 8int), 42);
    assert(iterate_next(Rang::Yellow, (1int, 8int), 43) == (6int, 5int));
    lemma_iterate_snoc(Rang::Yellow, (1int, 8int), 43);
    assert(iterate_next(Rang::Yellow, (1int, 8int), 44) == (5int, 6int));
    lemma_iterate_snoc(Rang::Yellow, (1int, 8int), 44);
    assert(iterate_next(Rang::Yellow, (1int, 8int), 45) == (4int, 6int));
    lemma_iterate_snoc(Rang::Yellow, (1int, 8int), 45);
    assert(iterate_next(Rang::Yellow, (1int, 8int), 46) == (3int, 6int));
    lemma_iterate_snoc(Rang::Yellow, (1int, 8int), 46);
    assert(iterate_next(Rang::Yellow, (1int, 8int), 47) == (2int, 6int));
    lemma_iterate_snoc(Rang::Yellow, (1int, 8int), 47);
    assert(iterate_next(Rang::Yellow, (1int, 8int), 48) == (1int, 6int));
    lemma_iterate_snoc(Rang::Yellow, (1int, 8int), 48);
    assert(iterate_next(Rang::Yellow, (1int, 8int), 49) == (0int, 6int));
    lemma_iterate_snoc(Rang::Yellow, (1int, 8int), 49);
    assert(iterate_next(Rang::Yellow, (1int, 8int), 50) == (0int, 7int));
    lemma_iterate_snoc(Rang::Yellow, (1int, 8int), 50);
    assert(iterate_next(Rang::Yellow, (1int, 8int), 51) == (1int, 7int));
    lemma_iterate_snoc(Rang::Yellow, (1int, 8int), 51);
    assert(iterate_next(Rang::Yellow, (1int, 8int), 52) == (2int, 7int));
    lemma_iterate_snoc(Rang::Yellow, (1int, 8int), 52);
    assert(iterate_next(Rang::Yellow, (1int, 8int), 53) == (3int, 7int));
    lemma_iterate_snoc(Rang::Yellow, (1int, 8int), 53);
    assert(iterate_next(Rang::Yellow, (1int, 8int), 54) == (4int, 7int));
    lemma_iterate_snoc(Rang::Yellow, (1int, 8int), 54);
    assert(iterate_next(Rang::Yellow, (1int, 8int), 55) == (5int, 7int));
    lemma_iterate_snoc(Rang::Yellow, (1int, 8int), 55);
    assert(iterate_next(Rang::Yellow, (1int, 8int), 56) == (6int, 7int));
}

proof fn lemma_no_early_finish_yellow(n: nat)
    requires
        1 <= n < 56,
    ensures
        iterate_next(Rang::Yellow, (1int, 8int), n) != (6int, 7int),
{
    lemma_track_values_yellow();
    if n == 1 {
        assert(iterate_next(Rang::Yellow, (1int, 8int), 1) == (2int, 8int));
    } else if n == 2 {
        assert(iterate_next(Rang::Yellow, (1int, 8int), 2) == (3int, 8int));
    } else if n == 3 {
        assert(iterate_next(Rang::Yellow, (1int, 8int), 3) == (4int, 8int));
    } else if n == 4 {
        assert(iterate_next(Rang::Yellow, (1int, 8int), 4) == (5int, 8int));
    } else if n == 5 {
        assert(iterate_next(Rang::Yellow, (1int, 8int), 5) == (6int, 9int));
    } else if n == 6 {
        assert(iterate_next(Rang::Yellow, (1int, 8int), 6) == (6int, 10int));
    } else if n == 7 {
        assert(iterate_next(Rang::Yellow, (1int, 8int), 7) == (6int, 11int));
    } else if n == 8 {
        assert(iterate_next(Rang::Yellow, (1int, 8int), 8) == (6int, 12int));
    } else if n == 9 {
        assert(iterate_next(Rang::Yellow, (1int, 8int), 9) == (6int, 13int));
    } else if n == 10 {
        assert(iterate_next(Rang::Yellow, (1int, 8int), 10) == (6int, 14int));
    } else if n == 11 {
        assert(iterate_next(Rang::Yellow, (1int, 8int), 11) == (7int, 14int));
    } else if n == 12 {
        assert(iterate_next(Rang::Yellow, (1int, 8int), 12) == (8int, 14int));
    } else if n == 13 {
        assert(iterate_next(Rang::Yellow, (1int, 8int), 13) == (8int, 13int));
    } else if n == 14 {
        assert(iterate_next(Rang::Yellow, (1int, 8int), 14) == (8int, 12int));
    } else if n == 15 {
        assert(iterate_next(Rang::Yellow, (1int, 8int), 15) == (8int, 11int));
    } else if n == 16 {
        assert(iterate_next(Rang::Yellow, (1int, 8int), 16) == (8int, 10int));
    } else if n == 17 {
        assert(iterate_next(Rang::Yellow, (1int, 8int), 17) == (8int, 9int));
    } else if n == 18 {
        assert(iterate_next(Rang::Yellow, (1int, 8int), 18) == (9int, 8int));
    } else if n == 19 {
        assert(iterate_next(Rang::Yellow, (1int, 8int), 19) == (10int, 8int));
    } else if n == 20 {
        assert(iterate_next(Rang::Yellow, (1int, 8int), 20) == (11int, 8int));
    } else if n == 21 {
        assert(iterate_next(Rang::Yellow, (1int, 8int), 21) == (12int, 8int));
    } else if n == 22 {
        assert(iterate_next(Rang::Yellow, (1int, 8int), 22) == (13int, 8int));
    } else if n == 23 {
        assert(iterate_next(Rang::Yellow, (1int, 8int), 23) == (14int, 8int));
    } else if n == 24 {
        assert(iterate_next(Rang::Yellow, (1int, 8int), 24) == (14int, 7int));
    } else if n == 25 {
        assert(iterate_next(Rang::Yellow, (1int, 8int), 25) == (14int, 6int));
    } else if n == 26 {
        assert(iterate_next(Rang::Yellow, (1int, 8int), 26) == (13int, 6int));
    } else if n == 27 {
        assert(iterate_next(Rang::Yellow, (1int, 8int), 27) == (12int, 6int));
    } else if n == 28 {
        assert(iterate_next(Rang::Yellow, (1int, 8int), 28) == (11int, 6int));
    } else if n == 29 {
        assert(iterate_next(Rang::Yellow, (1int, 8int), 29) == (10int, 6int));
    } else if n == 30 {
        assert(iterate_next(Rang::Yellow, (1int, 8int), 30) == (9int, 6int));
    } else if n == 31 {
        assert(iterate_next(Rang::Yellow, (1int, 8int), 31) == (8int, 5int));
    } else if n == 32 {
        assert(iterate_next(Rang::Yellow, (1int, 8int), 32) == (8int, 4int));
    } else if n == 33 {
        assert(iterate_next(Rang::Yellow, (1int, 8int), 33) == (8int, 3int));
    } else if n == 34 {
        assert(iterate_next(Rang::Yellow, (1int, 8int), 34) == (8int, 2int));
    } else if n == 35 {
        assert(iterate_next(Rang::Yellow, (1int, 8int), 35) == (8int, 1int));
    } else if n == 36 {
        assert(iterate_next(Rang::Yellow, (1int, 8int), 36) == (8int, 0int));
    } else if n == 37 {
        assert(iterate_next(Rang::Yellow, (1int, 8int), 37) == (7int, 0int));
    } else if n == 38 {
        assert(iterate_next(Rang::Yellow, (1int, 8int), 38) == (6int, 0int));
    } else if n == 39 {
        assert(iterate_next(Rang::Yellow, (1int, 8int), 39) == (6int, 1int));
    } else if n == 40 {
        assert(iterate_next(Rang::Yellow, (1int, 8int), 40) == (6int, 2int));
    } else if n == 41 {
        assert(iterate_next(Rang::Yellow, (1int, 8int), 41) == (6int, 3int));
    } else if n == 42 {
        assert(iterate_next(Rang::Yellow, (1int, 8int), 42) == (6int, 4int));
    } else if n == 43 {
        assert(iterate_next(Rang::Yellow, (1int, 8int), 43) == (6int, 5int));
    } else if n == 44 {
        assert(iterate_next(Rang::Yellow, (1int, 8int), 44) == (5int, 6int));
    } else if n == 45 {
        assert(iterate_next(Rang::Yellow, (1int, 8int), 45) == (4int, 6int));
    } else if n == 46 {
        assert(iterate_next(Rang::Yellow, (1int, 8int), 46) == (3int, 6int));
    } else if n == 47 {
        assert(iterate_next(Rang::Yellow, (1int, 8int), 47) == (2int, 6int));
    } else if n == 48 {
        assert(iterate_next(Rang::Yellow, (1int, 8int), 48) == (1int, 6int));
    } else if n == 49 {
        assert(iterate_next(Rang::Yellow, (1int, 8int), 49) == (0int, 6int));
    } else if n == 50 {
        assert(iterate_next(Rang::Yellow, (1int, 8int), 50) == (0int, 7int));
    } else if n == 51 {
        assert(iterate_next(Rang::Yellow, (1int, 8int), 51) == (1int, 7int));
    } else if n == 52 {
        assert(iterate_next(Rang::Yellow, (1int, 8int), 52) == (2int, 7int));
    } else if n == 53 {
        assert(iterate_next(Rang::Yellow, (1int, 8int), 53) == (3int, 7int));
    } else if n == 54 {
        assert(iterate_next(Rang::Yellow, (1int, 8int), 54) == (4int, 7int));
    } else if n == 55 {
        assert(iterate_next(Rang::Yellow, (1int, 8int), 55) == (5int, 7int));
    } else {
        assert(false);
    }
}

proof fn lemma_track_values_blue()
    ensures
        iterate_next(Rang::Blue, (8int, 13int), 0) == (8int, 13int),
        iterate_next(Rang::Blue, (8int, 13int), 1) == (8int, 12int),
        iterate_next(Rang::Blue, (8int, 13int), 2) == (8int, 11int),
        iterate_next(Rang::Blue, (8int, 13int), 3) == (8int, 10int),
        iterate_next(Rang::Blue, (8int, 13int), 4) == (8int, 9int),
        iterate_next(Rang::Blue, (8int, 13int), 5) == (9int, 8int),
        iterate_next(Rang::Blue, (8int, 13int), 6) == (10int, 8int),
        iterate_next(Rang::Blue, (8int, 13int), 7) == (11int, 8int),
        iterate_next(Rang::Blue, (8int, 13int), 8) == (12int, 8int),
        iterate_next(Rang::Blue, (8int, 13int), 9) == (13int, 8int),
        iterate_next(Rang::Blue, (8int, 13int), 10) == (14int, 8int),
        iterate_next(Rang::Blue, (8int, 13int), 11) == (14int, 7int),
        iterate_next(Rang::Blue, (8int, 13int), 12) == (14int, 6int),
        iterate_next(Rang::Blue, (8int, 13int), 13) == (13int, 6int),
        iterate_next(Rang::Blue, (8int, 13int), 14) == (12int, 6int),
        iterate_next(Rang::Blue, (8int, 13int), 15) == (11int, 6int),
        iterate_next(Rang::Blue, (8int, 13int), 16) == (10int, 6int),
        iterate_next(Rang::Blue, (8int, 13int), 17) == (9int, 6int),
        iterate_next(Rang::Blue, (8int, 13int), 18) == (8int, 5int),
        iterate_next(Rang::Blue, (8int, 13int), 19) == (8int, 4int),
        iterate_next(Rang::Blue, (8int, 13int), 20) == (8int, 3int),
        iterate_next(Rang::Blue, (8int, 13int), 21) == (8int, 2int),
        iterate_next(Rang::Blue, (8int, 13int), 22) == (8int, 1int),
        iterate_next(Rang::Blue, (8int, 13int), 23) == (8int, 0int),
        iterate_next(Rang::Blue, (8int, 13int), 24) == (7int, 0int),
        iterate_next(Rang::Blue, (8int, 13int), 25) == (6int, 0int),
        iterate_next(Rang::Blue, (8int, 13int), 26) == (6int, 1int),
        iterate_next(Rang::Blue, (8int, 13int), 27) == (6int, 2int),
        iterate_next(Rang::Blue, (8int, 13int), 28) == (6int, 3int),
        iterate_next(Rang::Blue, (8int, 13int), 29) == (6int, 4int),
        iterate_next(Rang::Blue, (8int, 13int), 30) == (6int, 5int),
        iterate_next(Rang::Blue, (8int, 13int), 31) == (5int, 6int),
        iterate_next(Rang::Blue, (8int, 13int), 32) == (4int, 6int),
        iterate_next(Rang::Blue, (8int, 13int), 33) == (3int, 6int),
        iterate_next(Rang::Blue, (8int, 13int), 34) == (2int, 6int),
        iterate_next(Rang::Blue, (8int, 13int), 35) == (1int, 6int),
        iterate_next(Rang::Blue, (8int, 13int), 36) == (0int, 6int),
        iterate_next(Rang::Blue, (8int, 13int), 37) == (0int, 7int),
        iterate_next(Rang::Blue, (8int, 13int), 38) == (0int, 8int),
        iterate_next(Rang::Blue, (8int, 13int), 39) == (1int, 8int),
        iterate_next(Rang::Blue, (8int, 13int), 40) == (2int, 8int),
        iterate_next(Rang::Blue, (8int, 13int), 41) == (3int, 8int),
        iterate_next(Rang::Blue, (8int, 13int), 42) == (4int, 8int),
        iterate_next(Rang::Blue, (8int, 13int), 43) == (5int, 8int),
        iterate_next(Rang::Blue, (8int, 13int), 44) == (6int, 9int),
        iterate_next(Rang::Blue, (8int, 13int), 45) == (6int, 10int),
        iterate_next(Rang::Blue, (8int, 13int), 46) == (6int, 11int),
        iterate_next(Rang::Blue, (8int, 13int), 47) == (6int, 12int),
        iterate_next(Rang::Blue, (8int, 13int), 48) == (6int, 13int),
        iterate_next(Rang::Blue, (8int, 13int), 49) == (6int, 14int),
        iterate_next(Rang::Blue, (8int, 13int), 50) == (7int, 14int),
        iterate_next(Rang::Blue, (8int, 13int), 51) == (7int, 13int),
        iterate_next(Rang::Blue, (8int, 13int), 52) == (7int, 12int),
        iterate_next(Rang::Blue, (8int, 13int), 53) == (7int, 11int),
        iterate_next(Rang::Blue, (8int, 13int), 54) == (7int, 10int),
        iterate_next(Rang::Blue, (8int, 13int), 55) == (7int, 9int),
        iterate_next(Rang::Blue, (8int, 13int), 56) == (7int, 8int),
{
    assert(iterate_next(Rang::Blue, (8int, 13int), 0) == (8int, 13int));
    lemma_iterate_snoc(Rang::Blue, (8int, 13int), 0);
    assert(iterate_next(Rang::Blue, (8int, 13int), 1) == (8int, 12int));
    lemma_iterate_snoc(Rang::Blue, (8int, 13int), 1);
    assert(iterate_next(Rang::Blue, (8int, 13int), 2) == (8int, 11int));
    lemma_iterate_snoc(Rang::Blue, (8int, 13int), 2);
    assert(iterate_next(Rang::Blue, (8int, 13int), 3) == (8int, 10int));
    lemma_iterate_snoc(Rang::Blue, (8int, 13int), 3);
    assert(iterate_next(Rang::Blue, (8int, 13int), 4) == (8int, 9int));
    lemma_iterate_snoc(Rang::Blue, (8int, 13int), 4);
    assert(iterate_next(Rang::Blue, (8int, 13int), 5) == (9int, 8int));
    lemma_iterate_snoc(Rang::Blue, (8int, 13int), 5);
    assert(iterate_next(Rang::Blue, (8int, 13int), 6) == (10int, 8int));
    lemma_iterate_snoc(Rang::Blue, (8int, 13int), 6);
    assert(iterate_next(Rang::Blue, (8int, 13int), 7) == (11int, 8int));
    lemma_iterate_snoc(Rang::Blue, (8int, 13int), 7);
    assert(iterate_next(Rang::Blue, (8int, 13int), 8) == (12int, 8int));
    lemma_iterate_snoc(Rang::Blue, (8int, 13int), 8);
    assert(iterate_next(Rang::Blue, (8int, 13int), 9) == (13int, 8int));
    lemma_iterate_snoc(Rang::Blue, (8int, 13int), 9);
    assert(iterate_next(Rang::Blue, (8int, 13int), 10) == (14int, 8int));
    lemma_iterate_snoc(Rang::Blue, (8int, 13int), 10);
    assert(iterate_next(Rang::Blue, (8int, 13int), 11) == (14int, 7int));
    lemma_iterate_snoc(Rang::Blue, (8int, 13int), 11);
    assert(iterate_next(Rang::Blue, (8int, 13int), 12) == (14int, 6int));
    lemma_iterate_snoc(Rang::Blue, (8int, 13int), 12);
    assert(iterate_next(Rang::Blue, (8int, 13int), 13) == (13int, 6int));
    lemma_iterate_snoc(Rang::Blue, (8int, 13int), 13);
    assert(iterate_next(Rang::Blue, (8int, 13int), 14) == (12int, 6int));
    lemma_iterate_snoc(Rang::Blue, (8int, 13int), 14);
    assert(iterate_next(Rang::Blue, (8int, 13int), 15) == (11int, 6int));
    lemma_iterate_snoc(Rang::Blue, (8int, 13int), 15);
    assert(iterate_next(Rang::Blue, (8int, 13int), 16) == (10int, 6int));
    lemma_iterate_snoc(Rang::Blue, (8int, 13int), 16);
    assert(iterate_next(Rang::Blue, (8int, 13int), 17) == (9int, 6int));
    lemma_iterate_snoc(Rang::Blue, (8int, 13int), 17);
    assert(iterate_next(Rang::Blue, (8int, 13int), 18) == (8int, 5int));
    lemma_iterate_snoc(Rang::Blue, (8int, 13int), 18);
    assert(iterate_next(Rang::Blue, (8int, 13int), 19) == (8int, 4int));
    lemma_iterate_snoc(Rang::Blue, (8int, 13int), 19);
    assert(iterate_next(Rang::Blue, (8int, 13int), 20) == (8int, 3int));
    lemma_iterate_snoc(Rang::Blue, (8int, 13int), 20);
    assert(iterate_next(Rang::Blue, (8int, 13int), 21) == (8int, 2int));
    lemma_iterate_snoc(Rang::Blue, (8int, 13int), 21);
    assert(iterate_next(Rang::Blue, (8int, 13int), 22) == (8int, 1int));
    lemma_iterate_snoc(Rang::Blue, (8int, 13int), 22);
    assert(iterate_next(Rang::Blue, (8int, 13int), 23) == (8int, 0int));
    lemma_iterate_snoc(Rang::Blue, (8int, 13int), 23);
    assert(iterate_next(Rang::Blue, (8int, 13int), 24) == (7int, 0int));
    lemma_iterate_snoc(Rang::Blue, (8int, 13int), 24);
    assert(iterate_next(Rang::Blue, (8int, 13int), 25) == (6int, 0int));
    lemma_iterate_snoc(Rang::Blue, (8int, 13int), 25);
    assert(iterate_next(Rang::Blue, (8int, 13int), 26) == (6int, 1int));
    lemma_iterate_snoc(Rang::Blue, (8int, 13int), 26);
    assert(iterate_next(Rang::Blue, (8int, 13int), 27) == (6int, 2int));
    lemma_iterate_snoc(Rang::Blue, (8int, 13int), 27);
    assert(iterate_next(Rang::Blue, (8int, 13int), 28) == (6int, 3int));
    lemma_iterate_snoc(Rang::Blue, (8int, 13int), 28);
    assert(iterate_next(Rang::Blue, (8int, 13int), 29) == (6int, 4int));
    lemma_iterate_snoc(Rang::Blue, (8int, 13int), 29);
    assert(iterate_next(Rang::Blue, (8int, 13int), 30) == (6int, 5int));
    lemma_iterate_snoc(Rang::Blue, (8int, 13int), 30);
    assert(iterate_next(Rang::Blue, (8int, 13int), 31) == (5int, 6int));
    lemma_iterate_snoc(Rang::Blue, (8int, 13int), 31);
    assert(iterate_next(Rang::Blue, (8int, 13int), 32) == (4int, 6int));
    lemma_iterate_snoc(Rang::Blue, (8int, 13int), 32);
    assert(iterate_next(Rang::Blue, (8int, 13int), 33) == (3int, 6int));
    lemma_iterate_snoc(Rang::Blue, (8int, 13int), 33);
    assert(iterate_next(Rang::Blue, (8int, 13int), 34) == (2int, 6int));
    lemma_iterate_snoc(Rang::Blue, (8int, 13int), 34);
    assert(iterate_next(Rang::Blue, (8int, 13int), 35) == (1int, 6int));
    lemma_iterate_snoc(Rang::Blue, (8int, 13int), 35);
    assert(iterate_next(Rang::Blue, (8int, 13int), 36) == (0int, 6int));
    lemma_iterate_snoc(Rang::Blue, (8int, 13int), 36);
    assert(iterate_next(Rang::Blue, (8int, 13int), 37) == (0int, 7int));
    lemma_iterate_snoc(Rang::Blue, (8int, 13int), 37);
    assert(iterate_next(Rang::Blue, (8int, 13int), 38) == (0int, 8int));
    lemma_iterate_snoc(Rang::Blue, (8int, 13int), 38);
    assert(iterate_next(Rang::Blue, (8int, 13int), 39) == (1int, 8int));
    lemma_iterate_snoc(Rang::Blue, (8int, 13int), 39);
    assert(iterate_next(Rang::Blue, (8int, 13int), 40) == (2int, 8int));
    lemma_iterate_snoc(Rang::Blue, (8int, 13int), 40);
    assert(iterate_next(Rang::Blue, (8int, 13int), 41) == (3int, 8int));
    lemma_iterate_snoc(Rang::Blue, (8int, 13int), 41);
    assert(iterate_next(Rang::Blue, (8int, 13int), 42) == (4int, 8int));
    lemma_iterate_snoc(Rang::Blue, (8int, 13int), 42);
    assert(iterate_next(Rang::Blue, (8int, 13int), 43) == (5int, 8int));
    lemma_iterate_snoc(Rang::Blue, (8int, 13int), 43);
    assert(iterate_next(Rang::Blue, (8int, 13int), 44) == (6int, 9int));
    lemma_iterate_snoc(Rang::Blue, (8int, 13int), 44);
    assert(iterate_next(Rang::Blue, (8int, 13int), 45) == (6int, 10int));
    lemma_iterate_snoc(Rang::Blue, (8int, 13int), 45);
    assert(iterate_next(Rang::Blue, (8int, 13int), 46) == (6int, 11int));
    lemma_iterate_snoc(Rang::Blue, (8int, 13int), 46);
    assert(iterate_next(Rang::Blue, (8int, 13int), 47) == (6int, 12int));
    lemma_iterate_snoc(Rang::Blue, (8int, 13int), 47);
    assert(iterate_next(Rang::Blue, (8int, 13int), 48) == (6int, 13int));
    lemma_iterate_snoc(Rang::Blue, (8int, 13int), 48);
    assert(iterate_next(Rang::Blue, (8int, 13int), 49) == (6int, 14int));
    lemma_iterate_snoc(Rang::Blue, (8int, 13int), 49);
    assert(iterate_next(Rang::Blue, (8int, 13int), 50) == (7int, 14int));
    lemma_iterate_snoc(Rang::Blue, (8int, 13int), 50);
    assert(iterate_next(Rang::Blue, (8int, 13int), 51) == (7int, 13int));
    lemma_iterate_snoc(Rang::Blue, (8int, 13int), 51);
    assert(iterate_next(Rang::Blue, (8int, 13int), 52) == (7int, 12int));
    lemma_iterate_snoc(Rang::Blue, (8int, 13int), 52);
    assert(iterate_next(Rang::Blue, (8int, 13int), 53) == (7int, 11int));
    lemma_iterate_snoc(Rang::Blue, (8int, 13int), 53);
    assert(iterate_next(Rang::Blue, (8int, 13int), 54) == (7int, 10int));
    lemma_iterate_snoc(Rang::Blue, (8int, 13int), 54);
    assert(iterate_next(Rang::Blue, (8int, 13int), 55) == (7int, 9int));
    lemma_iterate_snoc(Rang::Blue, (8int, 13int), 55);
    assert(iterate_next(Rang::Blue, (8int, 13int), 56) == (7int, 8int));
}

proof fn lemma_no_early_finish_blue(n: nat)
    requires
        1 <= n < 56,
    ensures
        iterate_next(Rang::Blue, (8int, 13int), n) != (7int, 8int),
{
    lemma_track_values_blue();
    if n == 1 {
        assert(iterate_next(Rang::Blue, (8int, 13int), 1) == (8int, 12int));
    } else if n == 2 {
        assert(iterate_next(Rang::Blue, (8int, 13int), 2) == (8int, 11int));
    } else if n == 3 {
        assert(iterate_next(Rang::Blue, (8int, 13int), 3) == (8int, 10int));
    } else if n == 4 {
        assert(iterate_next(Rang::Blue, (8int, 13int), 4) == (8int, 9int));
    } else if n == 5 {
        assert(iterate_next(Rang::Blue, (8int, 13int), 5) == (9int, 8int));
    } else if n == 6 {
        assert(iterate_next(Rang::Blue, (8int, 13int), 6) == (10int, 8int));
    } else if n == 7 {
        assert(iterate_next(Rang::Blue, (8int, 13int), 7) == (11int, 8int));
    } else if n == 8 {
        assert(iterate_next(Rang::Blue, (8int, 13int), 8) == (12int, 8int));
    } else if n == 9 {
        assert(iterate_next(Rang::Blue, (8int, 13int), 9) == (13int, 8int));
    } else if n == 10 {
        assert(iterate_next(Rang::Blue, (8int, 13int), 10) == (14int, 8int));
    } else if n == 11 {
        assert(iterate_next(Rang::Blue, (8int, 13int), 11) == (14int, 7int));
    } else if n == 12 {
        assert(iterate_next(Rang::Blue, (8int, 13int), 12) == (14int, 6int));
    } else if n == 13 {
        assert(iterate_next(Rang::Blue, (8int, 13int), 13) == (13int, 6int));
    } else if n == 14 {
        assert(iterate_next(Rang::Blue, (8int, 13int), 14) == (12int, 6int));
    } else if n == 15 {
        assert(iterate_next(Rang::Blue, (8int, 13int), 15) == (11int, 6int));
    } else if n == 16 {
        assert(iterate_next(Rang::Blue, (8int, 13int), 16) == (10int, 6int));
    } else if n == 17 {
        assert(iterate_next(Rang::Blue, (8int, 13int), 17) == (9int, 6int));
    } else if n == 18 {
        assert(iterate_next(Rang::Blue, (8int, 13int), 18) == (8int, 5int));
    } else if n == 19 {
        assert(iterate_next(Rang::Blue, (8int, 13int), 19) == (8int, 4int));
    } else if n == 20 {
        assert(iterate_next(Rang::Blue, (8int, 13int), 20) == (8int, 3int));
    } else if n == 21 {
        assert(iterate_next(Rang::Blue, (8int, 13int), 21) == (8int, 2int));
    } else if n == 22 {
        assert(iterate_next(Rang::Blue, (8int, 13int), 22) == (8int, 1int));
    } else if n == 23 {
        assert(iterate_next(Rang::Blue, (8int, 13int), 23) == (8int, 0int));
    } else if n == 24 {
        assert(iterate_next(Rang::Blue, (8int, 13int), 24) == (7int, 0int));
    } else if n == 25 {
        assert(iterate_next(Rang::Blue, (8int, 13int), 25) == (6int, 0int));
    } else if n == 26 {
        assert(iterate_next(Rang::Blue, (8int, 13int), 26) == (6int, 1int));
    } else if n == 27 {
        assert(iterate_next(Rang::Blue, (8int, 13int), 27) == (6int, 2int));
    } else if n == 28 {
        assert(iterate_next(Rang::Blue, (8int, 13int), 28) == (6int, 3int));
    } else if n == 29 {
        assert(iterate_next(Rang::Blue, (8int, 13int), 29) == (6int, 4int));
    } else if n == 30 {
        assert(iterate_next(Rang::Blue, (8int, 13int), 30) == (6int, 5int));
    } else if n == 31 {
        assert(iterate_next(Rang::Blue, (8int, 13int), 31) == (5int, 6int));
    } else if n == 32 {
        assert(iterate_next(Rang::Blue, (8int, 13int), 32) == (4int, 6int));
    } else if n == 33 {
        assert(iterate_next(Rang::Blue, (8int, 13int), 33) == (3int, 6int));
    } else if n == 34 {
        assert(iterate_next(Rang::Blue, (8int, 13int), 34) == (2int, 6int));
    } else if n == 35 {
        assert(iterate_next(Rang::Blue, (8int, 13int), 35) == (1int, 6int));
    } else if n == 36 {
        assert(iterate_next(Rang::Blue, (8int, 13int), 36) == (0int, 6int));
    } else if n == 37 {
        assert(iterate_next(Rang::Blue, (8int, 13int), 37) == (0int, 7int));
    } else if n == 38 {
        assert(iterate_next(Rang::Blue, (8int, 13int), 38) == (0int, 8int));
    } else if n == 39 {
        assert(iterate_next(Rang::Blue, (8int, 13int), 39) == (1int, 8int));
    } else if n == 40 {
        assert(iterate_next(Rang::Blue, (8int, 13int), 40) == (2int, 8int));
    } else if n == 41 {
        assert(iterate_next(Rang::Blue, (8int, 13int), 41) == (3int, 8int));
    } else if n == 42 {
        assert(iterate_next(Rang::Blue, (8int, 13int), 42) == (4int, 8int));
    } else if n == 43 {
        assert(iterate_next(Rang::Blue, (8int, 13int), 43) == (5int, 8int));
    } else if n == 44 {
        assert(iterate_next(Rang::Blue, (8int, 13int), 44) == (6int, 9int));
    } else if n == 45 {
        assert(iterate_next(Rang::Blue, (8int, 13int), 45) == (6int, 10int));
    } else if n == 46 {
        assert(iterate_next(Rang::Blue, (8int, 13int), 46) == (6int, 11int));
    } else if n == 47 {
        assert(iterate_next(Rang::Blue, (8int, 13int), 47) == (6int, 12int));
    } else if n == 48 {
        assert(iterate_next(Rang::Blue, (8int, 13int), 48) == (6int, 13int));
    } else if n == 49 {
        assert(iterate_next(Rang::Blue, (8int, 13int), 49) == (6int, 14int));
    } else if n == 50 {
        assert(iterate_next(Rang::Blue, (8int, 13int), 50) == (7int, 14int));
    } else if n == 51 {
        assert(iterate_next(Rang::Blue, (8int, 13int), 51) == (7int, 13int));
    } else if n == 52 {
        assert(iterate_next(Rang::Blue, (8int, 13int), 52) == (7int, 12int));
    } else if n == 53 {
        assert(iterate_next(Rang::Blue, (8int, 13int), 53) == (7int, 11int));
    } else if n == 54 {
        assert(iterate_next(Rang::Blue, (8int, 13int), 54) == (7int, 10int));
    } else if n == 55 {
        assert(iterate_next(Rang::Blue, (8int, 13int), 55) == (7int, 9int));
    } else {
        assert(false);
    }
}

} // verus!
