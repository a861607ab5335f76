use vstd::prelude::*;
use crate::rang::{
    Rang,
    cview,
    team_index,
    colour_at,
    start_coord_spec,
    end_coord_spec,
    pen_coords_spec,
    is_pen_coord,
    lemma_pen_coord_members,
};
use crate::cell::{LudoCell, LudoCellType};
use crate::goti::LudoGoti;
use crate::geometry::{
    in_bounds,
    is_safe_coord,
    spec_kind,
    has_next,
    next_coord_spec,
    landing_ok,
    path_spec,
    move_possible_spec,
    is_any_pen,
    lemma_step_stays_on_track,
    lemma_usable_has_next,
    lemma_pen_owner_unique,
    lemma_start_end_kinds,
    lemma_path_dest_on_track,
};

verus! {

/// Filtering keeps a sequence free of duplicates.
proof fn lemma_filter_no_dup<A>(s: Seq<A>, pred: spec_fn(A) -> bool)
    requires
        s.no_duplicates(),
    ensures
        s.filter(pred).no_duplicates(),
    decreases s.len(),
{
    reveal(Seq::filter);
    if s.len() > 0 {
        let rest = s.drop_last();
        assert(rest.no_duplicates()) by {
            assert forall|i: int, j: int|
                0 <= i < rest.len() && 0 <= j < rest.len() && i != j implies rest[i] != rest[j] by {
                assert(s[i] != s[j]);
            }
        }
        lemma_filter_no_dup(rest, pred);
        if pred(s.last()) {
            assert(!rest.contains(s.last())) by {
                assert forall|i: int| 0 <= i < rest.len() implies rest[i] != s.last() by {
                    assert(s[i] != s[s.len() - 1]);
                }
            }
            assert(!rest.filter(pred).contains(s.last())) by {
                if rest.filter(pred).contains(s.last()) {
                    rest.lemma_filter_contains_rev(pred, s.last());
                }
            }
            let out = rest.filter(pred).push(s.last());
            assert(out.no_duplicates()) by {
                assert forall|i: int, j: int|
                    0 <= i < out.len() && 0 <= j < out.len() && i != j implies out[i] != out[j] by {
                    if i < out.len() - 1 && j < out.len() - 1 {
                        assert(rest.filter(pred)[i] != rest.filter(pred)[j]);
                    } else if i < out.len() - 1 {
                        assert(rest.filter(pred).contains(rest.filter(pred)[i]));
                    } else {
                        assert(rest.filter(pred).contains(rest.filter(pred)[j]));
                    }
                }
            }
        }
    }
}

/// Appending a fresh element keeps a sequence free of duplicates.
proof fn lemma_push_nodup<A>(s: Seq<A>, x: A)
    requires
        s.no_duplicates(),
        !s.contains(x),
    ensures
        s.push(x).no_duplicates(),
{
    let out = s.push(x);
    assert forall|i: int, j: int|
        0 <= i < out.len() && 0 <= j < out.len() && i != j implies out[i] != out[j] by {
        if i < s.len() && j < s.len() {
            assert(out[i] == s[i] && out[j] == s[j]);
        } else if i < s.len() {
            assert(out[i] == s[i] && out[j] == x);
            assert(s.contains(s[i]));
        } else {
            assert(out[i] == x && out[j] == s[j]);
            assert(s.contains(s[j]));
        }
    }
}

/// What removing one index does to membership and duplicate-freedom.
proof fn lemma_remove_props<A>(s: Seq<A>, k0: int)
    requires
        0 <= k0 < s.len(),
    ensures
        forall|x: A| #[trigger] s.remove(k0).contains(x) ==> s.contains(x),
        forall|i: int|
            0 <= i < s.len() && i != k0 ==> s.remove(k0).contains(#[trigger] s[i]),
        s.no_duplicates() ==> s.remove(k0).no_duplicates(),
        s.no_duplicates() ==> !s.remove(k0).contains(s[k0]),
{
    let r = s.remove(k0);
    assert forall|x: A| #[trigger] r.contains(x) implies s.contains(x) by {
        let j = choose|j: int| 0 <= j < r.len() && r[j] == x;
        if j < k0 {
            assert(s[j] == x);
        } else {
            assert(s[j + 1] == x);
        }
    }
    assert forall|i: int| 0 <= i < s.len() && i != k0 implies r.contains(#[trigger] s[i]) by {
        if i < k0 {
            assert(r[i] == s[i]);
        } else {
            assert(r[i - 1] == s[i]);
        }
    }
    if s.no_duplicates() {
        assert forall|i: int, j: int|
            0 <= i < r.len() && 0 <= j < r.len() && i != j implies r[i] != r[j] by {
            let i2: int = if i < k0 {
                i
            } else {
                i + 1
            };
            let j2: int = if j < k0 {
                j
            } else {
                j + 1
            };
            assert(r[i] == s[i2] && r[j] == s[j2]);
        }
        if r.contains(s[k0]) {
            let j = choose|j: int| 0 <= j < r.len() && r[j] == s[k0];
            if j < k0 {
                assert(s[j] == s[k0]);
            } else {
                assert(s[j + 1] == s[k0]);
            }
        }
    }
}

/// A coordinate list as pairs of mathematical integers.
pub open spec fn coord_views(s: Seq<(u8, u8)>) -> Seq<(int, int)> {
    s.map_values(|q: (u8, u8)| cview(q))
}

/// What a successful move did.
#[derive(Debug, PartialEq, Eq)]
pub enum MoveResult {
    /// The token advanced to the given square without further effect.
    NormalMove((u8, u8)),
    /// The token advanced to the given square and sent every token of
    /// another colour standing there back to its pen.
    Attacked((u8, u8)),
    /// A penned token was released onto its colour's start square.
    Unlocked,
    /// The token reached its colour's end square and left the board.
    Finished,
}

/// Why a move was refused. Both are caller-input errors: the board is
/// left exactly as it was.
#[derive(Clone, Copy, Debug, PartialEq, Eq, Structural)]
pub enum MoveError {
    /// The distance does not give a legal path from the start square.
    IllegalMove,
    /// No token of the moving colour stands on the start square.
    TokenNotFound,
}

/// The board engine: the 15x15 grid, an arena of tokens addressed by
/// stable indices, and per-colour bookkeeping. Cells and the per-colour
/// lists store token indices into `gotis`.
pub struct LudoEngine {
    pub board: Vec<Vec<LudoCell>>,
    pub gotis: Vec<LudoGoti>,
    pub locked_gotis: Vec<Vec<usize>>,
    pub moving_gotis: Vec<Vec<usize>>,
    pub num_finished: Vec<u8>,
    pub active_colours: Vec<Rang>,
    pub curr_colour: Rang,
}

impl LudoEngine {
    /// The fixed type of the square at (`r`, `c`).
    pub open spec fn kind_rc(self, r: int, c: int) -> LudoCellType {
        self.board@[r]@[c].cell_type
    }

    /// The token indices standing on the square at (`r`, `c`).
    pub open spec fn occ_rc(self, r: int, c: int) -> Seq<usize> {
        self.board@[r]@[c].gotis@
    }

    /// The locked (penned) token indices of `colour`.
    pub open spec fn lseq(self, colour: Rang) -> Seq<usize> {
        self.locked_gotis@[team_index(colour)]@
    }

    /// The moving (on-track) token indices of `colour`.
    pub open spec fn mseq(self, colour: Rang) -> Seq<usize> {
        self.moving_gotis@[team_index(colour)]@
    }

    /// How many tokens of `colour` have finished.
    pub open spec fn fin(self, colour: Rang) -> int {
        self.num_finished@[team_index(colour)] as int
    }

    /// Whether `colour` takes part in this game.
    pub open spec fn is_active(self, colour: Rang) -> bool {
        self.active_colours@.contains(colour)
    }

    /// Number of tokens in the arena.
    pub open spec fn ngotis(self) -> int {
        self.gotis@.len() as int
    }

    /// The colour of token `id`.
    pub open spec fn gcol(self, id: usize) -> Rang {
        self.gotis@[id as int].colour
    }

    /// The coordinate of token `id`, as integers.
    pub open spec fn gpos(self, id: usize) -> (int, int) {
        cview(self.gotis@[id as int].coords)
    }

    /// Token `id` is in its colour's locked list.
    pub open spec fn in_locked(self, id: usize) -> bool {
        self.lseq(self.gcol(id)).contains(id)
    }

    /// Token `id` is in its colour's moving list.
    pub open spec fn in_moving(self, id: usize) -> bool {
        self.mseq(self.gcol(id)).contains(id)
    }

    /// Token `id` is still on the board, penned or moving.
    pub open spec fn on_board(self, id: usize) -> bool {
        self.in_locked(id) || self.in_moving(id)
    }

    /// Movement legality as a function of this engine's state.
    pub open spec fn mp(self, colour: Rang, s: (u8, u8), dist: u8) -> Option<(int, int)> {
        move_possible_spec(self.active_colours@, colour, cview(s), dist)
    }

    /// The grid is 15x15 and the bookkeeping vectors have one entry per
    /// colour.
    pub open spec fn wf_shape(self) -> bool {
        &&& self.board@.len() == 15
        &&& forall|r: int| 0 <= r < 15 ==> (#[trigger] self.board@[r])@.len() == 15
        &&& self.locked_gotis@.len() == 4
        &&& self.moving_gotis@.len() == 4
        &&& self.num_finished@.len() == 4
        &&& self.active_colours@.len() >= 1
        &&& self.active_colours@.no_duplicates()
    }

    /// Every square has the type the construction gave it.
    pub open spec fn wf_kinds(self) -> bool {
        forall|r: int, c: int|
            0 <= r < 15 && 0 <= c < 15 ==> #[trigger] self.kind_rc(r, c) == spec_kind(
                self.active_colours@,
                (r, c),
            )
    }

    /// Locked lists hold tokens of their own active colour standing on a
    /// pen square of that colour.
    pub open spec fn wf_locked_lists(self) -> bool {
        forall|i: int, k: int|
            0 <= i < 4 && 0 <= k < self.locked_gotis@[i]@.len() ==> {
                let id = #[trigger] self.locked_gotis@[i]@[k];
                &&& id < self.ngotis()
                &&& team_index(self.gcol(id)) == i
                &&& self.is_active(self.gcol(id))
                &&& is_pen_coord(self.gcol(id), self.gpos(id))
            }
    }

    /// Moving lists hold tokens of their own active colour standing on a
    /// usable track square (never a pen, never an unusable square).
    pub open spec fn wf_moving_lists(self) -> bool {
        forall|i: int, k: int|
            0 <= i < 4 && 0 <= k < self.moving_gotis@[i]@.len() ==> {
                let id = #[trigger] self.moving_gotis@[i]@[k];
                &&& id < self.ngotis()
                &&& team_index(self.gcol(id)) == i
                &&& self.is_active(self.gcol(id))
                &&& in_bounds(self.gpos(id))
                &&& self.moving_kind_ok(spec_kind(self.active_colours@, self.gpos(id)))
            }
    }

    /// The square types a moving token may stand on.
    pub open spec fn moving_kind_ok(self, k: LudoCellType) -> bool {
        k == LudoCellType::Default || k == LudoCellType::SafeSpot || (
        k matches LudoCellType::HomeLane(_))
    }

    /// A token is in at most one list, and each list holds it at most
    /// once.
    pub open spec fn wf_list_nodup(self) -> bool {
        &&& forall|i: int|
            0 <= i < 4 ==> (#[trigger] self.locked_gotis@[i])@.no_duplicates()
        &&& forall|i: int|
            0 <= i < 4 ==> (#[trigger] self.moving_gotis@[i])@.no_duplicates()
        &&& forall|i: int, id: usize|
            0 <= i < 4 ==> !((#[trigger] self.locked_gotis@[i]@.contains(id))
                && self.moving_gotis@[i]@.contains(id))
    }

    /// Every token belongs to an active colour, and a token off both
    /// lists has finished: it stands on its colour's end coordinate.
    pub open spec fn wf_tokens(self) -> bool {
        forall|id: usize|
            id < self.ngotis() ==> {
                &&& self.is_active(#[trigger] self.gcol(id))
                &&& (self.on_board(id) || self.gpos(id) == end_coord_spec(self.gcol(id)))
            }
    }

    /// A cell's occupant list holds, at most once each, tokens that
    /// stand exactly there and are still on the board.
    pub open spec fn wf_cells(self) -> bool {
        &&& forall|r: int, c: int, k: int|
            0 <= r < 15 && 0 <= c < 15 && 0 <= k < self.occ_rc(r, c).len() ==> {
                let id = #[trigger] self.occ_rc(r, c)[k];
                &&& id < self.ngotis()
                &&& self.gpos(id) == (r, c)
                &&& self.on_board(id)
            }
        &&& forall|r: int, c: int|
            0 <= r < 15 && 0 <= c < 15 ==> (#[trigger] self.occ_rc(r, c)).no_duplicates()
    }

    /// Every token on a list, except the exempted ones, stands in the
    /// occupant list of the cell matching its coordinate.
    pub open spec fn wf_placed_except(self, exempt: Seq<usize>) -> bool {
        forall|id: usize|
            id < self.ngotis() && #[trigger] self.on_board(id) && !exempt.contains(id)
                ==> in_bounds(self.gpos(id)) && self.occ_rc(self.gpos(id).0, self.gpos(id).1)
                .contains(id)
    }

    /// Locked plus moving plus finished tokens of the colour at index
    /// `i`.
    pub open spec fn team_total(self, i: int) -> int {
        self.locked_gotis@[i]@.len() + self.moving_gotis@[i]@.len() + self.num_finished@[i]
    }

    /// Each active colour owns exactly four tokens, split among locked,
    /// moving and finished; inactive colours own none.
    pub open spec fn wf_counts(self) -> bool {
        forall|i: int|
            0 <= i < 4 ==> #[trigger] self.team_total(i) == (if self.is_active(colour_at(i)) {
                4int
            } else {
                0int
            })
    }

    /// Well-formedness during capture resolution: tokens named in
    /// `exempt` have been lifted off the board and not yet re-penned.
    pub open spec fn wf_except(self, exempt: Seq<usize>) -> bool {
        &&& self.wf_shape()
        &&& self.wf_kinds()
        &&& self.wf_locked_lists()
        &&& self.wf_moving_lists()
        &&& self.wf_list_nodup()
        &&& self.wf_tokens()
        &&& self.wf_cells()
        &&& self.wf_placed_except(exempt)
        &&& self.wf_counts()
    }

    /// The engine invariant: every constructor establishes it and every
    /// operation preserves it.
    pub open spec fn wf(self) -> bool {
        self.wf_except(Seq::empty())
    }

    /// Two engines hold the same observable state.
    pub open spec fn same_state(self, other: LudoEngine) -> bool {
        &&& self.board@.len() == other.board@.len()
        &&& forall|r: int|
            0 <= r < self.board@.len() ==> (#[trigger] self.board@[r])@ =~= other.board@[r]@
        &&& self.gotis@ =~= other.gotis@
        &&& self.locked_gotis@.len() == other.locked_gotis@.len()
        &&& forall|i: int|
            0 <= i < self.locked_gotis@.len() ==> (#[trigger] self.locked_gotis@[i])@
                =~= other.locked_gotis@[i]@
        &&& self.moving_gotis@.len() == other.moving_gotis@.len()
        &&& forall|i: int|
            0 <= i < self.moving_gotis@.len() ==> (#[trigger] self.moving_gotis@[i])@
                =~= other.moving_gotis@[i]@
        &&& self.num_finished@ =~= other.num_finished@
        &&& self.active_colours@ =~= other.active_colours@
        &&& self.curr_colour == other.curr_colour
    }

    /// Each colour is its own bookkeeping index's colour.
    pub proof fn lemma_team_index_roundtrip(colour: Rang)
        ensures
            colour_at(team_index(colour)) == colour,
            0 <= team_index(colour) < 4,
    {
    }

    /// The invariant does not depend on whose turn is recorded: two
    /// engines equal in everything but `curr_colour` are equally
    /// well-formed.
    pub proof fn lemma_wf_same_fields(a: LudoEngine, b: LudoEngine)
        requires
            a.wf(),
            b.board == a.board,
            b.gotis == a.gotis,
            b.locked_gotis == a.locked_gotis,
            b.moving_gotis == a.moving_gotis,
            b.num_finished == a.num_finished,
            b.active_colours == a.active_colours,
        ensures
            b.wf(),
    {
        assert(b.wf_kinds()) by {
            assert forall|r: int, c: int| 0 <= r < 15 && 0 <= c < 15 implies #[trigger] b.kind_rc(
                r,
                c,
            ) == spec_kind(b.active_colours@, (r, c)) by {
                assert(a.kind_rc(r, c) == spec_kind(a.active_colours@, (r, c)));
            }
        }
        assert(b.wf_locked_lists()) by {
            assert forall|i: int, k: int|
                0 <= i < 4 && 0 <= k < b.locked_gotis@[i]@.len() implies {
                let id = #[trigger] b.locked_gotis@[i]@[k];
                &&& id < b.ngotis()
                &&& team_index(b.gcol(id)) == i
                &&& b.is_active(b.gcol(id))
                &&& is_pen_coord(b.gcol(id), b.gpos(id))
            } by {
                assert(a.locked_gotis@[i]@[k] == b.locked_gotis@[i]@[k]);
            }
        }
        assert(b.wf_moving_lists()) by {
            assert forall|i: int, k: int|
                0 <= i < 4 && 0 <= k < b.moving_gotis@[i]@.len() implies {
                let id = #[trigger] b.moving_gotis@[i]@[k];
                &&& id < b.ngotis()
                &&& team_index(b.gcol(id)) == i
                &&& b.is_active(b.gcol(id))
                &&& in_bounds(b.gpos(id))
                &&& b.moving_kind_ok(spec_kind(b.active_colours@, b.gpos(id)))
            } by {
                assert(a.moving_gotis@[i]@[k] == b.moving_gotis@[i]@[k]);
            }
        }
        assert(b.wf_list_nodup()) by {
            assert forall|i: int| 0 <= i < 4 implies (#[trigger] b.locked_gotis@[i])@
                .no_duplicates() by {
                assert(a.locked_gotis@[i]@.no_duplicates());
            }
            assert forall|i: int| 0 <= i < 4 implies (#[trigger] b.moving_gotis@[i])@
                .no_duplicates() by {
                assert(a.moving_gotis@[i]@.no_duplicates());
            }
            assert forall|i: int, id: usize| 0 <= i < 4 implies !((
            #[trigger] b.locked_gotis@[i]@.contains(id)) && b.moving_gotis@[i]@.contains(id)) by {
                assert(!(a.locked_gotis@[i]@.contains(id) && a.moving_gotis@[i]@.contains(id)));
            }
        }
        assert(b.wf_tokens()) by {
            assert forall|id: usize| id < b.ngotis() implies {
                &&& b.is_active(#[trigger] b.gcol(id))
                &&& (b.on_board(id) || b.gpos(id) == end_coord_spec(b.gcol(id)))
            } by {
                assert(a.is_active(a.gcol(id)) && (a.on_board(id) || a.gpos(id) == end_coord_spec(
                    a.gcol(id),
                )));
            }
        }
        assert(b.wf_cells()) by {
            assert forall|r: int, c: int, k: int|
                0 <= r < 15 && 0 <= c < 15 && 0 <= k < b.occ_rc(r, c).len() implies {
                let id = #[trigger] b.occ_rc(r, c)[k];
                &&& id < b.ngotis()
                &&& b.gpos(id) == (r, c)
                &&& b.on_board(id)
            } by {
                assert(a.occ_rc(r, c)[k] == b.occ_rc(r, c)[k]);
            }
            assert forall|r: int, c: int| 0 <= r < 15 && 0 <= c < 15 implies (#[trigger] b.occ_rc(
                r,
                c,
            )).no_duplicates() by {
                assert(a.occ_rc(r, c).no_duplicates());
            }
        }
        assert(b.wf_placed_except(Seq::empty())) by {
            assert forall|id: usize|
                id < b.ngotis() && #[trigger] b.on_board(id) && !Seq::<usize>::empty().contains(
                    id,
                ) implies in_bounds(b.gpos(id)) && b.occ_rc(b.gpos(id).0, b.gpos(id).1).contains(
                id,
            ) by {
                assert(a.on_board(id));
                assert(in_bounds(a.gpos(id)) && a.occ_rc(a.gpos(id).0, a.gpos(id).1).contains(id));
            }
        }
        assert(b.wf_counts()) by {
            assert forall|i: int| 0 <= i < 4 implies #[trigger] b.team_total(i) == (
            if b.is_active(colour_at(i)) {
                4int
            } else {
                0int
            }) by {
                assert(a.team_total(i) == b.team_total(i));
            }
        }
    }

    /// The bookkeeping index of a colour.
    pub fn team_idx(colour: Rang) -> (i: usize)
        ensures
            i == team_index(colour),
    {
        match colour {
            Rang::Red => 0,
            Rang::Green => 1,
            Rang::Yellow => 2,
            Rang::Blue => 3,
        }
    }

    /// Whether (`r`, `c`) is a pen square of `colour`.
    fn pen_at(colour: Rang, r: usize, c: usize) -> (b: bool)
        ensures
            b == is_pen_coord(colour, (r as int, c as int)),
    {
        match colour {
            Rang::Red => (r == 10 && c == 1) || (r == 10 && c == 4) || (r == 13 && c == 1) || (r
                == 13 && c == 4),
            Rang::Green => (r == 1 && c == 1) || (r == 1 && c == 4) || (r == 4 && c == 1) || (r
                == 4 && c == 4),
            Rang::Yellow => (r == 1 && c == 10) || (r == 1 && c == 13) || (r == 4 && c == 10) || (
            r == 4 && c == 13),
            Rang::Blue => (r == 10 && c == 10) || (r == 10 && c == 13) || (r == 13 && c == 10)
                || (r == 13 && c == 13),
        }
    }

    /// Whether (`r`, `c`) is a home-lane square of `colour`.
    fn lane_at(colour: Rang, r: usize, c: usize) -> (b: bool)
        ensures
            b == crate::geometry::is_lane_coord(colour, (r as int, c as int)),
    {
        match colour {
            Rang::Red => c == 7 && 9 <= r && r <= 13,
            Rang::Green => r == 7 && 1 <= c && c <= 5,
            Rang::Yellow => c == 7 && 1 <= r && r <= 5,
            Rang::Blue => r == 7 && 9 <= c && c <= 13,
        }
    }

    /// Whether (`r`, `c`) is one of the eight safe spots.
    fn safe_at(r: usize, c: usize) -> (b: bool)
        ensures
            b == is_safe_coord((r as int, c as int)),
    {
        (r == 1 && c == 8) || (r == 2 && c == 6) || (r == 6 && c == 1) || (r == 6 && c == 12) || (
        r == 8 && c == 2) || (r == 8 && c == 13) || (r == 12 && c == 8) || (r == 13 && c == 6)
    }

    /// The type the square at (`r`, `c`) gets when the board is built
    /// for the given active colours.
    fn cell_kind_for(active: &Vec<Rang>, r: usize, c: usize) -> (k: LudoCellType)
        requires
            r < 15,
            c < 15,
        ensures
            k == spec_kind(active@, (r as int, c as int)),
    {
        if Self::pen_at(Rang::Red, r, c) {
            if Self::contains_colour(active, Rang::Red) {
                LudoCellType::LockedPosition(Rang::Red)
            } else {
                LudoCellType::NoUse
            }
        } else if Self::pen_at(Rang::Green, r, c) {
            if Self::contains_colour(active, Rang::Green) {
                LudoCellType::LockedPosition(Rang::Green)
            } else {
                LudoCellType::NoUse
            }
        } else if Self::pen_at(Rang::Yellow, r, c) {
            if Self::contains_colour(active, Rang::Yellow) {
                LudoCellType::LockedPosition(Rang::Yellow)
            } else {
                LudoCellType::NoUse
            }
        } else if Self::pen_at(Rang::Blue, r, c) {
            if Self::contains_colour(active, Rang::Blue) {
                LudoCellType::LockedPosition(Rang::Blue)
            } else {
                LudoCellType::NoUse
            }
        } else if Self::lane_at(Rang::Red, r, c) {
            LudoCellType::HomeLane(Rang::Red)
        } else if Self::lane_at(Rang::Green, r, c) {
            LudoCellType::HomeLane(Rang::Green)
        } else if Self::lane_at(Rang::Yellow, r, c) {
            LudoCellType::HomeLane(Rang::Yellow)
        } else if Self::lane_at(Rang::Blue, r, c) {
            LudoCellType::HomeLane(Rang::Blue)
        } else if Self::safe_at(r, c) {
            LudoCellType::SafeSpot
        } else if 6 <= r && r <= 8 && 6 <= c && c <= 8 {
            LudoCellType::NoUse
        } else if (6 <= r && r <= 8) || (6 <= c && c <= 8) {
            LudoCellType::Default
        } else {
            LudoCellType::NoUse
        }
    }

    /// In a state whose tokens are laid out four per active colour in
    /// pen order, each pen square of each active colour holds exactly
    /// its own penned token.
    #[verifier::rlimit(100)]
    proof fn lemma_initial_placement(e: LudoEngine, active_view: Seq<Rang>)
        requires
            e.active_colours@ == active_view,
            active_view.no_duplicates(),
            e.gotis@.len() == 4 * active_view.len(),
            e.locked_gotis@.len() == 4,
            forall|id: int|
                0 <= id < 4 * active_view.len() ==> (#[trigger] e.gotis@[id]).colour
                    == active_view[id / 4] && cview(e.gotis@[id].coords) == pen_coords_spec(
                    active_view[id / 4],
                )[id % 4],
            forall|j: int| 0 <= j < active_view.len() ==> e.lseq(#[trigger] active_view[j]).len()
                == 4,
            forall|j: int, k: int|
                0 <= j < active_view.len() && 0 <= k < 4 ==> (#[trigger] e.lseq(
                    active_view[j],
                )[k]) == 4 * j + k,
            forall|rr: int, cc: int, k: int|
                0 <= rr < 15 && 0 <= cc < 15 && 0 <= k < e.occ_rc(rr, cc).len() ==> {
                    let id = #[trigger] e.occ_rc(rr, cc)[k];
                    &&& id < 4 * active_view.len()
                    &&& e.gpos(id) == (rr, cc)
                },
            forall|rr: int, cc: int|
                0 <= rr < 15 && 0 <= cc < 15 ==> (#[trigger] e.occ_rc(rr, cc)).no_duplicates(),
            forall|id: usize|
                id < 4 * active_view.len() ==> in_bounds(#[trigger] e.gpos(id)) && e.occ_rc(
                    e.gpos(id).0,
                    e.gpos(id).1,
                ).contains(id),
        ensures
            forall|t: Rang, k: int|
                active_view.contains(t) && 0 <= k < 4 ==> e.occ_at(
                    #[trigger] pen_coords_spec(t)[k],
                ).len() == 1 && e.gcol(e.occ_at(pen_coords_spec(t)[k])[0]) == t && e.in_locked(
                    e.occ_at(pen_coords_spec(t)[k])[0],
                ),
    {
        assert forall|t: Rang, k: int|
            active_view.contains(t) && 0 <= k < 4 implies e.occ_at(
            #[trigger] pen_coords_spec(t)[k],
        ).len() == 1 && e.gcol(e.occ_at(pen_coords_spec(t)[k])[0]) == t && e.in_locked(
            e.occ_at(pen_coords_spec(t)[k])[0],
        ) by {
            let j = choose|j: int| 0 <= j < active_view.len() && active_view[j] == t;
            let p = pen_coords_spec(t)[k];
            assert(in_bounds(p)) by {
                lemma_pen_coord_members(t, p);
                assert(pen_coords_spec(t).contains(p));
            }
            let idstar = e.lseq(active_view[j])[k];
            assert(idstar == 4 * j + k);
            assert(0 <= 4 * j + k < 4 * active_view.len()) by (nonlinear_arith)
                requires
                    0 <= j < active_view.len(),
                    0 <= k < 4,
            ;
            assert((4 * j + k) / 4 == j && (4 * j + k) % 4 == k) by (nonlinear_arith)
                requires
                    0 <= k < 4,
                    0 <= j,
            ;
            assert(e.gotis@[idstar as int].colour == active_view[idstar as int / 4]);
            assert(e.gcol(idstar) == t && e.gpos(idstar) == p);
            assert(e.occ_at(p).contains(idstar));
            assert forall|kk: int| 0 <= kk < e.occ_at(p).len() implies e.occ_at(p)[kk] == idstar
                by {
                let x = e.occ_at(p)[kk];
                assert(x < 4 * active_view.len() && e.gpos(x) == p);
                let j2 = x as int / 4;
                assert(0 <= j2 < active_view.len() && 4 * j2 <= x < 4 * j2 + 4) by (
                nonlinear_arith)
                    requires
                        0 <= x < 4 * active_view.len(),
                        j2 == x as int / 4,
                ;
                let k2 = x as int - 4 * j2;
                assert(e.gcol(x) == active_view[j2] && e.gpos(x) == pen_coords_spec(
                    active_view[j2],
                )[k2]) by {
                    assert(x as int % 4 == k2) by (nonlinear_arith)
                        requires
                            j2 == x as int / 4,
                            k2 == x as int - 4 * j2,
                            0 <= x,
                    ;
                }
                assert(active_view[j2] == t) by {
                    lemma_pen_coord_members(active_view[j2], p);
                    assert(pen_coords_spec(active_view[j2]).contains(p));
                    lemma_pen_coord_members(t, p);
                    assert(pen_coords_spec(t).contains(p));
                    lemma_pen_owner_unique(active_view[j2], t, p);
                }
                assert(j2 == j);
                assert(k2 == k);
            }
            assert(e.occ_at(p).len() == 1) by {
                if e.occ_at(p).len() > 1 {
                    assert(e.occ_at(p)[0] == idstar && e.occ_at(p)[1] == idstar);
                    assert(e.occ_at(p).no_duplicates());
                }
            }
            assert(e.lseq(t)[k] == idstar);
            assert(e.lseq(e.gcol(idstar)).contains(idstar));
        }
    }

    /// Builds the board for the given non-empty set of distinct active
    /// colours: the grid with its fixed square types, and one penned
    /// token on each pen square of each active colour. The first colour
    /// given has the first turn.
    #[verifier::rlimit(100)]
    pub fn new(active_colours: Vec<Rang>) -> (engine: LudoEngine)
        requires
            active_colours@.len() >= 1,
            active_colours@.no_duplicates(),
        ensures
            engine.wf(),
            engine.active_colours@ == active_colours@,
            engine.curr_colour == active_colours@[0],
            engine.ngotis() == 4 * active_colours@.len(),
            forall|t: Rang|
                active_colours@.contains(t) ==> (#[trigger] engine.lseq(t)).len() == 4
                    && engine.mseq(t).len() == 0 && engine.fin(t) == 0,
            // each pen square of each active colour holds exactly its
            // own penned token
            forall|t: Rang, k: int|
                active_colours@.contains(t) && 0 <= k < 4 ==> engine.occ_at(
                    #[trigger] pen_coords_spec(t)[k],
                ).len() == 1 && engine.gcol(engine.occ_at(pen_coords_spec(t)[k])[0]) == t
                    && engine.in_locked(engine.occ_at(pen_coords_spec(t)[k])[0]),
    {
        let mut board: Vec<Vec<LudoCell>> = Vec::new();
        let mut r: usize = 0;
        while r < 15
            invariant
                r <= 15,
                board@.len() == r,
                forall|rr: int| 0 <= rr < r ==> (#[trigger] board@[rr])@.len() == 15,
                forall|rr: int, cc: int|
                    0 <= rr < r && 0 <= cc < 15 ==> (#[trigger] board@[rr]@[cc]).cell_type
                        == spec_kind(active_colours@, (rr, cc)) && board@[rr]@[cc].gotis@.len()
                        == 0,
            decreases 15 - r,
        {
            let mut row: Vec<LudoCell> = Vec::new();
            let mut c: usize = 0;
            while c < 15
                invariant
                    r < 15,
                    c <= 15,
                    row@.len() == c,
                    forall|cc: int|
                        0 <= cc < c ==> (#[trigger] row@[cc]).cell_type == spec_kind(
                            active_colours@,
                            (r as int, cc),
                        ) && row@[cc].gotis@.len() == 0,
                decreases 15 - c,
            {
                row.push(
                    LudoCell { cell_type: Self::cell_kind_for(&active_colours, r, c), gotis: Vec::new() },
                );
                c += 1;
            }
            board.push(row);
            r += 1;
        }
        let mut locked_gotis: Vec<Vec<usize>> = Vec::new();
        let mut moving_gotis: Vec<Vec<usize>> = Vec::new();
        let mut num_finished: Vec<u8> = Vec::new();
        let mut i4: usize = 0;
        while i4 < 4
            invariant
                i4 <= 4,
                locked_gotis@.len() == i4,
                moving_gotis@.len() == i4,
                num_finished@.len() == i4,
                forall|i: int| 0 <= i < i4 ==> (#[trigger] locked_gotis@[i])@.len() == 0,
                forall|i: int| 0 <= i < i4 ==> (#[trigger] moving_gotis@[i])@.len() == 0,
                forall|i: int| 0 <= i < i4 ==> (#[trigger] num_finished@[i]) == 0,
            decreases 4 - i4,
        {
            locked_gotis.push(Vec::new());
            moving_gotis.push(Vec::new());
            num_finished.push(0);
            i4 += 1;
        }
        let curr_colour = active_colours[0];
        let mut engine = LudoEngine {
            board,
            gotis: Vec::new(),
            locked_gotis,
            moving_gotis,
            num_finished,
            active_colours,
            curr_colour,
        };
        let ghost active_view = engine.active_colours@;
        let mut a: usize = 0;
        while a < engine.active_colours.len()
            invariant
                a <= active_view.len(),
                engine.active_colours@ == active_view,
                active_view.len() >= 1,
                active_view.no_duplicates(),
                engine.curr_colour == active_view[0],
                engine.board@.len() == 15,
                forall|rr: int| 0 <= rr < 15 ==> (#[trigger] engine.board@[rr])@.len() == 15,
                engine.locked_gotis@.len() == 4,
                engine.moving_gotis@.len() == 4,
                engine.num_finished@.len() == 4,
                forall|i: int| 0 <= i < 4 ==> (#[trigger] engine.moving_gotis@[i])@.len() == 0,
                forall|i: int| 0 <= i < 4 ==> (#[trigger] engine.num_finished@[i]) == 0,
                engine.wf_kinds(),
                engine.gotis@.len() == 4 * a,
                // every token so far is the k-th pen token of a processed colour
                forall|id: int|
                    0 <= id < 4 * a ==> (#[trigger] engine.gotis@[id]).colour == active_view[id
                        / 4] && cview(engine.gotis@[id].coords) == pen_coords_spec(
                        active_view[id / 4],
                    )[id % 4],
                // processed colours hold their four tokens, in order
                forall|j: int|
                    0 <= j < a ==> engine.lseq(#[trigger] active_view[j]).len() == 4,
                forall|j: int, k: int|
                    0 <= j < a && 0 <= k < 4 ==> (#[trigger] engine.lseq(active_view[j])[k]) == 4
                        * j + k,
                // colours not yet processed hold none
                forall|t: Rang|
                    !active_view.take(a as int).contains(t) ==> (#[trigger] engine.lseq(t)).len()
                        == 0,
                // cells hold exactly the placed tokens
                forall|rr: int, cc: int, k: int|
                    0 <= rr < 15 && 0 <= cc < 15 && 0 <= k < engine.occ_rc(rr, cc).len() ==> {
                        let id = #[trigger] engine.occ_rc(rr, cc)[k];
                        &&& id < 4 * a
                        &&& engine.gpos(id) == (rr, cc)
                    },
                forall|rr: int, cc: int|
                    0 <= rr < 15 && 0 <= cc < 15 ==> (#[trigger] engine.occ_rc(
                        rr,
                        cc,
                    )).no_duplicates(),
                forall|id: usize|
                    id < 4 * a ==> in_bounds(#[trigger] engine.gpos(id)) && engine.occ_rc(
                        engine.gpos(id).0,
                        engine.gpos(id).1,
                    ).contains(id),
            decreases active_view.len() - a,
        {
            let colour = engine.active_colours[a];
            let i = Self::team_idx(colour);
            let pens = Rang::GetLockedPositions(colour);
            proof {
                Self::lemma_team_index_roundtrip(colour);
                assert(active_view.take(a as int + 1).contains(active_view[a as int])) by {
                    assert(active_view.take(a as int + 1)[a as int] == active_view[a as int]);
                }
            }
            let mut k: usize = 0;
            while k < 4
                invariant
                    k <= 4,
                    a < active_view.len(),
                    engine.active_colours@ == active_view,
                    colour == active_view[a as int],
                    i == team_index(colour),
                    forall|kk: int| 0 <= kk < 4 ==> cview(pens@[kk]) == pen_coords_spec(colour)[kk],
                    engine.curr_colour == active_view[0],
                    engine.board@.len() == 15,
                    forall|rr: int| 0 <= rr < 15 ==> (#[trigger] engine.board@[rr])@.len() == 15,
                    engine.locked_gotis@.len() == 4,
                    engine.moving_gotis@.len() == 4,
                    engine.num_finished@.len() == 4,
                    forall|ii: int| 0 <= ii < 4 ==> (#[trigger] engine.moving_gotis@[ii])@.len() == 0,
                    forall|ii: int| 0 <= ii < 4 ==> (#[trigger] engine.num_finished@[ii]) == 0,
                    engine.wf_kinds(),
                    engine.gotis@.len() == 4 * a + k,
                    forall|id: int|
                        0 <= id < 4 * a + k ==> (#[trigger] engine.gotis@[id]).colour
                            == active_view[id / 4] && cview(engine.gotis@[id].coords)
                            == pen_coords_spec(active_view[id / 4])[id % 4],
                    forall|j: int|
                        0 <= j < a ==> engine.lseq(#[trigger] active_view[j]).len() == 4,
                    forall|j: int, kk: int|
                        0 <= j < a && 0 <= kk < 4 ==> (#[trigger] engine.lseq(active_view[j])[kk])
                            == 4 * j + kk,
                    engine.lseq(colour).len() == k,
                    forall|kk: int| 0 <= kk < k ==> engine.lseq(colour)[kk] == 4 * a + kk,
                    forall|t: Rang|
                        !active_view.take(a as int + 1).contains(t) ==> (
                        #[trigger] engine.lseq(t)).len() == 0,
                    forall|rr: int, cc: int, kk: int|
                        0 <= rr < 15 && 0 <= cc < 15 && 0 <= kk < engine.occ_rc(rr, cc).len()
                            ==> {
                            let id = #[trigger] engine.occ_rc(rr, cc)[kk];
                            &&& id < 4 * a + k
                            &&& engine.gpos(id) == (rr, cc)
                        },
                    forall|rr: int, cc: int|
                        0 <= rr < 15 && 0 <= cc < 15 ==> (#[trigger] engine.occ_rc(
                            rr,
                            cc,
                        )).no_duplicates(),
                    forall|id: usize|
                        id < 4 * a + k ==> in_bounds(#[trigger] engine.gpos(id)) && engine.occ_rc(
                            engine.gpos(id).0,
                            engine.gpos(id).1,
                        ).contains(id),
                decreases 4 - k,
            {
                let (pr, pc) = pens[k];
                proof {
                    assert(cview(pens@[k as int]) == pen_coords_spec(colour)[k as int]);
                    assert(is_pen_coord(colour, pen_coords_spec(colour)[k as int])) by {
                        lemma_pen_coord_members(colour, pen_coords_spec(colour)[k as int]);
                        assert(pen_coords_spec(colour).contains(pen_coords_spec(colour)[k as int]));
                    }
                }
                proof {
                    assert(in_bounds((pr as int, pc as int)));
                }
                let ghost e1 = engine;
                let id = engine.gotis.len();
                engine.gotis.push(LudoGoti { colour, coords: (pr, pc) });
                engine.locked_gotis[i].push(id);
                engine.board[pr as usize][pc as usize].gotis.push(id);
                proof {
                    assert((4 * a + k) / 4 == a && (4 * a + k) % 4 == k) by (nonlinear_arith)
                        requires
                            0 <= k < 4,
                            0 <= a,
                    ;
                    let pri = pr as int;
                    let pci = pc as int;
                    assert(engine.gotis@ == e1.gotis@.push(LudoGoti { colour, coords: (pr, pc) }));
                    assert(engine.occ_rc(pri, pci) == e1.occ_rc(pri, pci).push(id));
                    assert forall|rr: int, cc: int|
                        0 <= rr < 15 && 0 <= cc < 15 && !(rr == pri && cc == pci) implies engine
                        .occ_rc(rr, cc) == e1.occ_rc(rr, cc) && engine.kind_rc(rr, cc)
                        == e1.kind_rc(rr, cc) by {}
                    assert(engine.kind_rc(pri, pci) == e1.kind_rc(pri, pci));
                    assert forall|t: Rang| team_index(t) != i implies engine.lseq(t) == e1.lseq(t)
                        by {}
                    assert(engine.lseq(colour) == e1.lseq(colour).push(id));
                    assert forall|idx: usize| idx < 4 * a + k implies engine.gpos(idx) == e1.gpos(
                        idx,
                    ) && engine.gcol(idx) == e1.gcol(idx) by {
                        assert(engine.gotis@[idx as int] == e1.gotis@[idx as int]);
                    }
                    assert(engine.gpos(id) == (pri, pci));
                    assert(engine.wf_kinds()) by {
                        assert forall|rr: int, cc: int|
                            0 <= rr < 15 && 0 <= cc < 15 implies #[trigger] engine.kind_rc(rr, cc)
                            == spec_kind(active_view, (rr, cc)) by {
                            assert(e1.kind_rc(rr, cc) == spec_kind(active_view, (rr, cc)));
                        }
                    }
                    assert forall|t: Rang|
                        !active_view.take(a as int + 1).contains(t) implies (
                    #[trigger] engine.lseq(t)).len() == 0 by {
                        if team_index(t) == i {
                            assert(t == colour);
                            assert(active_view.take(a as int + 1)[a as int] == colour);
                            assert(active_view.take(a as int + 1).contains(t));
                        } else {
                            assert(engine.lseq(t) == e1.lseq(t));
                        }
                    }
                    assert forall|rr: int, cc: int, kk: int|
                        0 <= rr < 15 && 0 <= cc < 15 && 0 <= kk < engine.occ_rc(rr, cc).len()
                        implies {
                        let idx = #[trigger] engine.occ_rc(rr, cc)[kk];
                        &&& idx < 4 * a + k + 1
                        &&& engine.gpos(idx) == (rr, cc)
                    } by {
                        if rr == pri && cc == pci {
                            if kk < e1.occ_rc(rr, cc).len() {
                                assert(engine.occ_rc(rr, cc)[kk] == e1.occ_rc(rr, cc)[kk]);
                            } else {
                                assert(engine.occ_rc(rr, cc)[kk] == id);
                            }
                        } else {
                            assert(engine.occ_rc(rr, cc)[kk] == e1.occ_rc(rr, cc)[kk]);
                        }
                    }
                    assert forall|rr: int, cc: int|
                        0 <= rr < 15 && 0 <= cc < 15 implies (#[trigger] engine.occ_rc(
                        rr,
                        cc,
                    )).no_duplicates() by {
                        if rr == pri && cc == pci {
                            let oldo = e1.occ_rc(rr, cc);
                            let newo = engine.occ_rc(rr, cc);
                            assert(oldo.no_duplicates());
                            assert forall|x: int, y: int|
                                0 <= x < newo.len() && 0 <= y < newo.len() && x != y implies newo[x]
                                != newo[y] by {
                                if x < oldo.len() && y < oldo.len() {
                                    assert(newo[x] == oldo[x] && newo[y] == oldo[y]);
                                } else if x < oldo.len() {
                                    assert(newo[x] == oldo[x] && newo[y] == id && oldo[x] < 4 * a
                                        + k);
                                } else {
                                    assert(newo[x] == id && newo[y] == oldo[y] && oldo[y] < 4 * a
                                        + k);
                                }
                            }
                        } else {
                            assert(engine.occ_rc(rr, cc) == e1.occ_rc(rr, cc));
                            assert(e1.occ_rc(rr, cc).no_duplicates());
                        }
                    }
                    assert forall|idx: usize| idx < 4 * a + k + 1 implies in_bounds(
                        #[trigger] engine.gpos(idx),
                    ) && engine.occ_rc(engine.gpos(idx).0, engine.gpos(idx).1).contains(idx) by {
                        if idx < 4 * a + k {
                            assert(in_bounds(e1.gpos(idx)) && e1.occ_rc(
                                e1.gpos(idx).0,
                                e1.gpos(idx).1,
                            ).contains(idx));
                            let q = e1.gpos(idx);
                            let kk = choose|kk: int|
                                0 <= kk < e1.occ_rc(q.0, q.1).len() && e1.occ_rc(q.0, q.1)[kk]
                                    == idx;
                            if q.0 == pri && q.1 == pci {
                                assert(engine.occ_rc(q.0, q.1)[kk] == idx);
                            } else {
                                assert(engine.occ_rc(q.0, q.1)[kk] == idx);
                            }
                        } else {
                            assert(idx == id);
                            let newo = engine.occ_rc(pri, pci);
                            assert(newo[newo.len() - 1] == id);
                        }
                    }
                }
                k += 1;
            }
            a += 1;
            proof {
                assert(active_view.take(a as int) =~= active_view.take(a as int - 1).push(
                    active_view[a as int - 1],
                ));
                assert forall|t: Rang|
                    !active_view.take(a as int).contains(t) implies (
                #[trigger] engine.lseq(t)).len() == 0 by {
                    assert(!active_view.take(a as int - 1).contains(t));
                }
            }
        }
        proof {
            let e = engine;
            assert(active_view.take(active_view.len() as int) =~= active_view);
            assert(e.wf_shape());
            assert(e.wf_tokens()) by {
                assert forall|id: usize| id < e.ngotis() implies {
                    &&& e.is_active(#[trigger] e.gcol(id))
                    &&& (e.on_board(id) || e.gpos(id) == end_coord_spec(e.gcol(id)))
                } by {
                    let j = id as int / 4;
                    assert(0 <= j < active_view.len()) by (nonlinear_arith)
                        requires
                            0 <= id < 4 * active_view.len(),
                            j == id as int / 4,
                    ;
                    assert(e.gcol(id) == active_view[j]);
                    assert(e.is_active(e.gcol(id)));
                    assert(e.lseq(active_view[j])[id as int - 4 * j] == id) by {
                        assert(4 * j <= id < 4 * j + 4) by (nonlinear_arith)
                            requires
                                j == id as int / 4,
                                0 <= id,
                        ;
                    }
                    assert(e.lseq(e.gcol(id)).contains(id));
                }
            }
            assert(e.wf_locked_lists()) by {
                assert forall|i: int, k: int|
                    0 <= i < 4 && 0 <= k < e.locked_gotis@[i]@.len() implies {
                    let id = #[trigger] e.locked_gotis@[i]@[k];
                    &&& id < e.ngotis()
                    &&& team_index(e.gcol(id)) == i
                    &&& e.is_active(e.gcol(id))
                    &&& is_pen_coord(e.gcol(id), e.gpos(id))
                } by {
                    let t = colour_at(i);
                    assert(team_index(t) == i);
                    assert(e.locked_gotis@[i]@ == e.lseq(t));
                    if active_view.contains(t) {
                        let j = choose|j: int|
                            0 <= j < active_view.len() && active_view[j] == t;
                        assert(e.lseq(active_view[j])[k] == 4 * j + k);
                        let id = e.locked_gotis@[i]@[k];
                        assert(id == 4 * j + k);
                        assert((4 * j + k) / 4 == j && (4 * j + k) % 4 == k) by (nonlinear_arith)
                            requires
                                0 <= k < 4,
                                0 <= j,
                        ;
                        assert(e.gcol(id) == t);
                        assert(cview(e.gotis@[id as int].coords) == pen_coords_spec(t)[k]);
                        lemma_pen_coord_members(t, pen_coords_spec(t)[k]);
                        assert(pen_coords_spec(t).contains(pen_coords_spec(t)[k]));
                    } else {
                        assert(e.lseq(t).len() == 0);
                    }
                }
            }
            assert(e.wf_moving_lists()) by {
                assert forall|i: int, k: int|
                    0 <= i < 4 && 0 <= k < e.moving_gotis@[i]@.len() implies {
                    let id = #[trigger] e.moving_gotis@[i]@[k];
                    &&& id < e.ngotis()
                    &&& team_index(e.gcol(id)) == i
                    &&& e.is_active(e.gcol(id))
                    &&& in_bounds(e.gpos(id))
                    &&& e.moving_kind_ok(spec_kind(e.active_colours@, e.gpos(id)))
                } by {
                    assert(e.moving_gotis@[i]@.len() == 0);
                }
            }
            assert(e.wf_list_nodup()) by {
                assert forall|i: int| 0 <= i < 4 implies (#[trigger] e.locked_gotis@[i])@
                    .no_duplicates() by {
                    let t = colour_at(i);
                    assert(team_index(t) == i);
                    assert(e.locked_gotis@[i]@ == e.lseq(t));
                    if active_view.contains(t) {
                        let j = choose|j: int|
                            0 <= j < active_view.len() && active_view[j] == t;
                        assert forall|k1: int, k2: int|
                            0 <= k1 < e.lseq(t).len() && 0 <= k2 < e.lseq(t).len() && k1 != k2
                                implies e.lseq(t)[k1] != e.lseq(t)[k2] by {
                            assert(e.lseq(active_view[j])[k1] == 4 * j + k1);
                            assert(e.lseq(active_view[j])[k2] == 4 * j + k2);
                        }
                    } else {
                        assert(e.lseq(t).len() == 0);
                    }
                }
                assert forall|i: int| 0 <= i < 4 implies (#[trigger] e.moving_gotis@[i])@
                    .no_duplicates() by {
                    assert(e.moving_gotis@[i]@.len() == 0);
                }
                assert forall|i: int, id: usize| 0 <= i < 4 implies !((
                #[trigger] e.locked_gotis@[i]@.contains(id)) && e.moving_gotis@[i]@.contains(id))
                    by {
                    assert(e.moving_gotis@[i]@.len() == 0);
                }
            }
            assert(e.wf_cells()) by {
                assert forall|rr: int, cc: int, k: int|
                    0 <= rr < 15 && 0 <= cc < 15 && 0 <= k < e.occ_rc(rr, cc).len() implies {
                    let id = #[trigger] e.occ_rc(rr, cc)[k];
                    &&& id < e.ngotis()
                    &&& e.gpos(id) == (rr, cc)
                    &&& e.on_board(id)
                } by {
                    let id = e.occ_rc(rr, cc)[k];
                    assert(id < 4 * active_view.len() && e.gpos(id) == (rr, cc));
                    let j = id as int / 4;
                    assert(0 <= j < active_view.len()) by (nonlinear_arith)
                        requires
                            0 <= id < 4 * active_view.len(),
                            j == id as int / 4,
                    ;
                    assert(e.gcol(id) == active_view[j]);
                    assert(e.lseq(active_view[j])[id as int - 4 * j] == id) by {
                        assert(4 * j <= id < 4 * j + 4) by (nonlinear_arith)
                            requires
                                j == id as int / 4,
                                0 <= id,
                        ;
                    }
                    assert(e.lseq(e.gcol(id)).contains(id));
                }
            }
            assert(e.wf_placed_except(Seq::empty()));
            assert(e.wf_counts()) by {
                assert forall|i: int| 0 <= i < 4 implies #[trigger] e.team_total(i) == (
                if e.is_active(colour_at(i)) {
                    4int
                } else {
                    0int
                }) by {
                    let t = colour_at(i);
                    assert(team_index(t) == i);
                    assert(e.locked_gotis@[i]@ == e.lseq(t));
                    assert(e.moving_gotis@[i]@.len() == 0);
                    assert(e.num_finished@[i] == 0);
                    if active_view.contains(t) {
                        let j = choose|j: int|
                            0 <= j < active_view.len() && active_view[j] == t;
                        assert(e.lseq(active_view[j]).len() == 4);
                    } else {
                        assert(e.lseq(t).len() == 0);
                    }
                }
            }
            assert forall|t: Rang| active_view.contains(t) implies (#[trigger] e.lseq(t)).len()
                == 4 && e.mseq(t).len() == 0 && e.fin(t) == 0 by {
                let j = choose|j: int| 0 <= j < active_view.len() && active_view[j] == t;
                assert(e.lseq(active_view[j]).len() == 4);
                Self::lemma_team_index_roundtrip(t);
                assert(e.moving_gotis@[team_index(t)]@.len() == 0);
                assert(e.num_finished@[team_index(t)] == 0);
            }
            Self::lemma_initial_placement(e, active_view);
        }
        engine
    }

    /// Read-only view of the whole grid.
    pub fn get_board(&self) -> (r: &Vec<Vec<LudoCell>>)
        ensures
            r == &self.board,
    {
        &self.board
    }

    /// Records whose turn it is. Informational only: no legality check
    /// consults it.
    pub fn set_current_colour(&mut self, colour: Rang)
        requires
            old(self).wf(),
        ensures
            final(self).wf(),
            final(self).curr_colour == colour,
            final(self).board == old(self).board,
            final(self).gotis == old(self).gotis,
            final(self).locked_gotis == old(self).locked_gotis,
            final(self).moving_gotis == old(self).moving_gotis,
            final(self).num_finished == old(self).num_finished,
            final(self).active_colours == old(self).active_colours,
    {
        let ghost pre = *self;
        self.curr_colour = colour;
        proof {
            Self::lemma_wf_same_fields(pre, *self);
        }
    }

    /// Whether `colour` appears in the active set.
    fn contains_colour(v: &Vec<Rang>, colour: Rang) -> (r: bool)
        ensures
            r == v@.contains(colour),
    {
        let mut j: usize = 0;
        while j < v.len()
            invariant
                j <= v@.len(),
                forall|k: int| 0 <= k < j ==> v@[k] != colour,
            decreases v@.len() - j,
        {
            if v[j] == colour {
                return true;
            }
            j += 1;
        }
        false
    }

    /// A coordinate a movement query may start from: on the board, on a
    /// usable square, and either a pen square of the moving colour or a
    /// square travel is defined on. Anything else is a programming
    /// error in the caller.
    pub open spec fn valid_start(self, colour: Rang, s: (u8, u8)) -> bool {
        &&& in_bounds(cview(s))
        &&& self.kind_rc(cview(s).0, cview(s).1) != LudoCellType::NoUse
        &&& (is_pen_coord(colour, cview(s)) || has_next(cview(s)))
    }

    /// The occupants of the square at `p`.
    pub open spec fn occ_at(self, p: (int, int)) -> Seq<usize> {
        self.occ_rc(p.0, p.1)
    }

    /// A moving token of `colour` stands on the square at `p`.
    pub open spec fn has_moving_at(self, colour: Rang, p: (int, int)) -> bool {
        exists|m: int|
            0 <= m < self.mseq(colour).len() && self.gpos(#[trigger] self.mseq(colour)[m]) == p
    }

    /// The coordinates a movable-token query over the first `m` moving
    /// tokens of `colour` reports: each token's square, in list order,
    /// kept once at its first occurrence, when a move of `dist` steps
    /// from it is legal.
    pub open spec fn movable_upto(self, colour: Rang, dist: u8, m: int) -> Seq<(int, int)>
        decreases m,
    {
        if m <= 0 {
            Seq::empty()
        } else {
            let prev = self.movable_upto(colour, dist, m - 1);
            let p = self.gpos(self.mseq(colour)[m - 1]);
            if self.mp(colour, self.gotis@[self.mseq(colour)[m - 1] as int].coords, dist) is Some
                && !prev.contains(p) {
                prev.push(p)
            } else {
                prev
            }
        }
    }

    /// A token of `colour` stands on the square at `p`.
    pub open spec fn has_colour_at(self, p: (int, int), colour: Rang) -> bool {
        exists|k: int|
            0 <= k < self.occ_at(p).len() && self.gcol(#[trigger] self.occ_at(p)[k]) == colour
    }

    /// `k0` indexes the first occupant of `colour` on the square at
    /// `p`.
    pub open spec fn is_first_of_colour(self, p: (int, int), colour: Rang, k0: int) -> bool {
        &&& 0 <= k0 < self.occ_at(p).len()
        &&& self.gcol(self.occ_at(p)[k0]) == colour
        &&& forall|k: int| 0 <= k < k0 ==> self.gcol(#[trigger] self.occ_at(p)[k]) != colour
    }

    /// A landing of `colour` on `fc` captures: the square is no safe
    /// spot and a token of another colour stands there.
    pub open spec fn attack_happens(self, colour: Rang, fc: (int, int)) -> bool {
        &&& spec_kind(self.active_colours@, fc) != LudoCellType::SafeSpot
        &&& exists|k: int|
            0 <= k < self.occ_at(fc).len() && self.gcol(#[trigger] self.occ_at(fc)[k]) != colour
    }

    /// The tokens of colour `t`, as a predicate on arena indices.
    pub open spec fn col_pred(self, t: Rang) -> spec_fn(usize) -> bool {
        |x: usize| self.gcol(x) == t
    }

    /// The tokens of colours other than `t`, as a predicate on arena
    /// indices.
    pub open spec fn notcol_pred(self, t: Rang) -> spec_fn(usize) -> bool {
        |x: usize| self.gcol(x) != t
    }

    /// How many tokens of colour `t` stand on the square at `p`.
    pub open spec fn count_colour_at(self, p: (int, int), t: Rang) -> int {
        self.occ_at(p).filter(self.col_pred(t)).len() as int
    }

    /// `p` is a pen square of a colour that loses at least one token
    /// when `colour` lands on `fc`: only such pens may change on a
    /// capture.
    #[verifier::opaque]
    pub open spec fn pen_of_captured(self, colour: Rang, fc: (int, int), p: (int, int)) -> bool {
        ||| (is_pen_coord(Rang::Red, p) && Rang::Red != colour && self.count_colour_at(
            fc,
            Rang::Red,
        ) > 0)
        ||| (is_pen_coord(Rang::Green, p) && Rang::Green != colour && self.count_colour_at(
            fc,
            Rang::Green,
        ) > 0)
        ||| (is_pen_coord(Rang::Yellow, p) && Rang::Yellow != colour && self.count_colour_at(
            fc,
            Rang::Yellow,
        ) > 0)
        ||| (is_pen_coord(Rang::Blue, p) && Rang::Blue != colour && self.count_colour_at(
            fc,
            Rang::Blue,
        ) > 0)
    }

    /// Which outcome a successful move reports: a capture beats a
    /// finish, a finish beats an unlock, anything else is a plain move,
    /// and the landing square is reported exactly.
    pub open spec fn move_outcome_ok(pre: LudoEngine, colour: Rang, fc: (int, int), m: MoveResult) -> bool {
        let att = pre.attack_happens(colour, fc);
        let fin = fc == end_coord_spec(colour);
        let unl = fc == start_coord_spec(colour);
        &&& (att ==> (m matches MoveResult::Attacked(q) && cview(q) == fc))
        &&& (!att && fin ==> m == MoveResult::Finished)
        &&& (!att && !fin && unl ==> m == MoveResult::Unlocked)
        &&& (!att && !fin && !unl ==> (m matches MoveResult::NormalMove(q) && cview(q) == fc))
    }

    /// How a successful move changes the per-colour counts: an unlock
    /// trades a locked token for a moving one, a finish trades a moving
    /// token for a finished one, and a capture pens every token of each
    /// other colour that stood on the landing square.
    /// The counts of one colour other than the mover, after a move.
    pub open spec fn other_counts_ok(
        pre: LudoEngine,
        post: LudoEngine,
        colour: Rang,
        s: (int, int),
        fc: (int, int),
        t: Rang,
    ) -> bool {
        &&& post.fin(t) == pre.fin(t)
        &&& (!pre.attack_happens(colour, fc) ==> post.lseq(t).len() == pre.lseq(t).len()
            && post.mseq(t).len() == pre.mseq(t).len())
        &&& (pre.attack_happens(colour, fc) && s != fc ==> post.lseq(t).len() == pre.lseq(t).len()
            + pre.count_colour_at(fc, t) && post.mseq(t).len() == pre.mseq(t).len()
            - pre.count_colour_at(fc, t))
    }

    /// How a successful move changes the per-colour counts: an unlock
    /// trades a locked token for a moving one, a finish trades a moving
    /// token for a finished one, and a capture pens every token of each
    /// other colour that stood on the landing square.
    pub open spec fn move_counts_ok(
        pre: LudoEngine,
        post: LudoEngine,
        colour: Rang,
        s: (int, int),
        fc: (int, int),
    ) -> bool {
        &&& (fc == start_coord_spec(colour) ==> post.lseq(colour).len() == pre.lseq(colour).len()
            - 1 && post.mseq(colour).len() == pre.mseq(colour).len() + 1 && post.fin(colour)
            == pre.fin(colour))
        &&& (fc == end_coord_spec(colour) ==> post.lseq(colour).len() == pre.lseq(colour).len()
            && post.mseq(colour).len() == pre.mseq(colour).len() - 1 && post.fin(colour)
            == pre.fin(colour) + 1)
        &&& (fc != start_coord_spec(colour) && fc != end_coord_spec(colour) ==> post.lseq(
            colour,
        ).len() == pre.lseq(colour).len() && post.mseq(colour).len() == pre.mseq(colour).len()
            && post.fin(colour) == pre.fin(colour))
        &&& (Rang::Red != colour ==> Self::other_counts_ok(pre, post, colour, s, fc, Rang::Red))
        &&& (Rang::Green != colour ==> Self::other_counts_ok(pre, post, colour, s, fc, Rang::Green))
        &&& (Rang::Yellow != colour ==> Self::other_counts_ok(
            pre,
            post,
            colour,
            s,
            fc,
            Rang::Yellow,
        ))
        &&& (Rang::Blue != colour ==> Self::other_counts_ok(pre, post, colour, s, fc, Rang::Blue))
    }

    /// How a successful move changes the token arena and the occupant
    /// lists, for the move of the `k0`-th occupant of `s` to `fc`.
    pub open spec fn move_cells_ok(
        pre: LudoEngine,
        post: LudoEngine,
        colour: Rang,
        s: (int, int),
        k0: int,
        fc: (int, int),
    ) -> bool {
        let id = pre.occ_at(s)[k0];
        let att = pre.attack_happens(colour, fc);
        let fin = fc == end_coord_spec(colour);
        &&& post.ngotis() == pre.ngotis()
        &&& forall|x: usize| x < pre.ngotis() ==> #[trigger] post.gcol(x) == pre.gcol(x)
        &&& post.gpos(id) == fc
        &&& (fin ==> !post.in_locked(id) && !post.in_moving(id))
        &&& (!fin ==> post.in_moving(id) && !post.in_locked(id))
        &&& (s != fc ==> post.occ_at(s) == pre.occ_at(s).remove(k0))
        &&& (s != fc && !att && !fin ==> post.occ_at(fc) == pre.occ_at(fc).push(id))
        &&& (s != fc && fin ==> post.occ_at(fc) == pre.occ_at(fc))
        &&& (s != fc && att ==> post.occ_at(fc) == pre.occ_at(fc).filter(pre.col_pred(colour)).push(
            id,
        ))
        &&& (s == fc && !att && !fin ==> post.occ_at(s) == pre.occ_at(s).remove(k0).push(id))
        &&& (s == fc && att ==> post.occ_at(fc) == pre.occ_at(fc).remove(k0).filter(
            pre.col_pred(colour),
        ).push(id))
        &&& forall|x: usize|
            x < pre.ngotis() && x != id && !(att && pre.occ_at(fc).contains(x) && pre.gcol(x)
                != colour) ==> #[trigger] post.gpos(x) == pre.gpos(x) && post.in_locked(x)
                == pre.in_locked(x) && post.in_moving(x) == pre.in_moving(x)
        &&& (att ==> forall|k: int|
            0 <= k < pre.occ_at(fc).len() && pre.gcol(#[trigger] pre.occ_at(fc)[k]) != colour
                ==> post.in_locked(pre.occ_at(fc)[k]) && is_pen_coord(
                pre.gcol(pre.occ_at(fc)[k]),
                post.gpos(pre.occ_at(fc)[k]),
            ))
        &&& forall|pr: int, pc: int|
            0 <= pr < 15 && 0 <= pc < 15 && (pr, pc) != s && (pr, pc) != fc && !(att
                && pre.pen_of_captured(colour, fc, (pr, pc))) ==> #[trigger] post.occ_rc(pr, pc)
                == pre.occ_rc(pr, pc)
    }

    /// Index of the first token of `colour` among `ids`, scanning the
    /// arena `gotis`.
    fn first_of_colour(ids: &Vec<usize>, gotis: &Vec<LudoGoti>, colour: Rang) -> (r: Option<usize>)
        requires
            forall|k: int| 0 <= k < ids@.len() ==> #[trigger] ids@[k] < gotis@.len(),
        ensures
            r is None ==> forall|k: int|
                0 <= k < ids@.len() ==> gotis@[#[trigger] ids@[k] as int].colour != colour,
            r matches Some(k0) ==> 0 <= k0 < ids@.len() && gotis@[ids@[k0 as int] as int].colour
                == colour && forall|k: int|
                0 <= k < k0 ==> gotis@[#[trigger] ids@[k] as int].colour != colour,
    {
        let mut k: usize = 0;
        while k < ids.len()
            invariant
                k <= ids@.len(),
                forall|kk: int| 0 <= kk < ids@.len() ==> #[trigger] ids@[kk] < gotis@.len(),
                forall|kk: int|
                    0 <= kk < k ==> gotis@[#[trigger] ids@[kk] as int].colour != colour,
            decreases ids@.len() - k,
        {
            if gotis[ids[k]].colour == colour {
                return Some(k);
            }
            k += 1;
        }
        None
    }

    /// Whether any token among `ids` belongs to a colour other than
    /// `colour`.
    fn has_enemy(ids: &Vec<usize>, gotis: &Vec<LudoGoti>, colour: Rang) -> (b: bool)
        requires
            forall|k: int| 0 <= k < ids@.len() ==> #[trigger] ids@[k] < gotis@.len(),
        ensures
            b == exists|k: int|
                0 <= k < ids@.len() && gotis@[#[trigger] ids@[k] as int].colour != colour,
    {
        let mut k: usize = 0;
        while k < ids.len()
            invariant
                k <= ids@.len(),
                forall|kk: int| 0 <= kk < ids@.len() ==> #[trigger] ids@[kk] < gotis@.len(),
                forall|kk: int|
                    0 <= kk < k ==> gotis@[#[trigger] ids@[kk] as int].colour == colour,
            decreases ids@.len() - k,
        {
            if gotis[ids[k]].colour != colour {
                return true;
            }
            k += 1;
        }
        false
    }

    /// Position of `id` in a bookkeeping list.
    fn position_of(list: &Vec<usize>, id: usize) -> (r: Option<usize>)
        ensures
            r is None ==> !list@.contains(id),
            r matches Some(k) ==> 0 <= k < list@.len() && list@[k as int] == id,
    {
        let mut k: usize = 0;
        while k < list.len()
            invariant
                k <= list@.len(),
                forall|kk: int| 0 <= kk < k ==> list@[kk] != id,
            decreases list@.len() - k,
        {
            if list[k] == id {
                return Some(k);
            }
            k += 1;
        }
        proof {
            assert forall|kk: int| 0 <= kk < list@.len() implies list@[kk] != id by {}
            if list@.contains(id) {
                let kk = choose|kk: int| 0 <= kk < list@.len() && list@[kk] == id;
            }
        }
        None
    }

    /// One step of travel for `colour` from `coord`. Pure geometry: it
    /// never consults occupancy or legality, and it may return a square
    /// that is off the track; the legality check rejects such results.
    pub fn get_next_coord(colour: Rang, coord: (u8, u8)) -> (r: (u8, u8))
        requires
            has_next(cview(coord)),
        ensures
            cview(r) == next_coord_spec(colour, cview(coord)),
            in_bounds(cview(r)),
            has_next(cview(r)),
    {
        proof {
            lemma_step_stays_on_track(colour, cview(coord));
        }
        let (r0, c0) = coord;
        if r0 == 0 && c0 == 6 {
            (0, 7)
        } else if r0 == 0 && c0 == 8 {
            (1, 8)
        } else if r0 == 6 && c0 == 0 {
            (6, 1)
        } else if r0 == 6 && c0 == 14 {
            (7, 14)
        } else if r0 == 8 && c0 == 0 {
            (7, 0)
        } else if r0 == 8 && c0 == 14 {
            (8, 13)
        } else if r0 == 14 && c0 == 6 {
            (13, 6)
        } else if r0 == 14 && c0 == 8 {
            (14, 7)
        } else if r0 == 9 && c0 == 6 {
            (8, 5)
        } else if r0 == 6 && c0 == 5 {
            (5, 6)
        } else if r0 == 8 && c0 == 9 {
            (9, 8)
        } else if r0 == 5 && c0 == 8 {
            (6, 9)
        } else {
            let home = Rang::GetHomeTurn(colour);
            if r0 == home.0.0 && c0 == home.0.1 {
                home.1
            } else if r0 == 6 {
                (6, c0 + 1)
            } else if r0 == 7 && c0 == 0 {
                (6, 0)
            } else if r0 == 7 && c0 < 6 {
                (7, c0 + 1)
            } else if r0 == 7 && c0 == 14 {
                (8, 14)
            } else if r0 == 7 && c0 > 8 {
                (7, c0 - 1)
            } else if r0 == 8 {
                (8, c0 - 1)
            } else if c0 == 6 {
                (r0 - 1, 6)
            } else if c0 == 7 && r0 == 0 {
                (0, 8)
            } else if c0 == 7 && r0 < 6 {
                (r0 + 1, 7)
            } else if c0 == 7 && r0 == 14 {
                (14, 6)
            } else if c0 == 7 && r0 > 8 {
                (r0 - 1, 7)
            } else {
                (r0 + 1, 8)
            }
        }
    }

    /// Whether a token of `colour` standing on `start_coord` can move
    /// `dist` steps, and where it would land. A penned token unlocks to
    /// the colour's start square exactly on a 6; any other token walks
    /// the track, and the move is refused as soon as a step leaves the
    /// board or lands on an unusable square other than the colour's own
    /// end. Read-only: the board is never touched, so equal states give
    /// equal answers. It does not check that a token of `colour`
    /// actually stands on `start_coord`.
    pub fn is_move_possible(&self, colour: Rang, start_coord: (u8, u8), dist: u8) -> (r: Option<
        (u8, u8),
    >)
        requires
            self.wf(),
            self.valid_start(colour, start_coord),
        ensures
            (r is Some) == (self.mp(colour, start_coord, dist) is Some),
            r matches Some(fc) ==> self.mp(colour, start_coord, dist) == Some(cview(fc))
                && in_bounds(cview(fc)),
    {
        let ghost active_view = self.active_colours@;
        if Self::pen_at(colour, start_coord.0 as usize, start_coord.1 as usize) {
            if dist == 6 {
                Some(Rang::GetStartCoord(colour))
            } else {
                None
            }
        } else {
            let mut cur = start_coord;
            let mut remaining = dist;
            while remaining > 0
                invariant
                    self.wf(),
                    active_view == self.active_colours@,
                    !is_pen_coord(colour, cview(start_coord)),
                    remaining <= dist,
                    in_bounds(cview(cur)),
                    has_next(cview(cur)),
                    path_spec(active_view, colour, cview(start_coord), dist as nat) == path_spec(
                        active_view,
                        colour,
                        cview(cur),
                        remaining as nat,
                    ),
                decreases remaining,
            {
                let next = Self::get_next_coord(colour, cur);
                let (nr, nc) = next;
                if nr > 14 || nc > 14 {
                    proof {
                        assert(false);
                    }
                    return None;
                }
                let kind = self.board[nr as usize][nc as usize].cell_type;
                let e = Rang::GetEndCoord(colour);
                proof {
                    assert(kind == self.kind_rc(nr as int, nc as int));
                    assert(kind == spec_kind(active_view, cview(next)));
                }
                if kind == LudoCellType::NoUse && !(nr == e.0 && nc == e.1) {
                    proof {
                        assert(!landing_ok(active_view, colour, cview(next)));
                        assert(path_spec(active_view, colour, cview(cur), remaining as nat)
                            is None);
                    }
                    return None;
                }
                proof {
                    assert(landing_ok(active_view, colour, cview(next)));
                    assert(path_spec(active_view, colour, cview(cur), remaining as nat)
                        == path_spec(active_view, colour, cview(next), (remaining - 1) as nat));
                }
                cur = next;
                remaining = remaining - 1;
            }
            Some(cur)
        }
    }

    /// The move contract holds for every way of naming the landing
    /// square and the moved occupant, because both are unique.
    proof fn lemma_contract_wrap(
        pre: LudoEngine,
        post: LudoEngine,
        colour: Rang,
        start_coords: (u8, u8),
        dist: u8,
        k0: int,
        fcv: (int, int),
        m: MoveResult,
    )
        requires
            pre.mp(colour, start_coords, dist) == Some(fcv),
            pre.is_first_of_colour(cview(start_coords), colour, k0),
            Self::move_outcome_ok(pre, colour, fcv, m),
            Self::move_counts_ok(pre, post, colour, cview(start_coords), fcv),
            Self::move_cells_ok(pre, post, colour, cview(start_coords), k0, fcv),
        ensures
            forall|fc: (int, int), kk: int|
                pre.mp(colour, start_coords, dist) == Some(fc) && pre.is_first_of_colour(
                    cview(start_coords),
                    colour,
                    kk,
                ) ==> Self::move_outcome_ok(pre, colour, fc, m) && Self::move_counts_ok(
                    pre,
                    post,
                    colour,
                    cview(start_coords),
                    fc,
                ) && #[trigger] Self::move_cells_ok(
                    pre,
                    post,
                    colour,
                    cview(start_coords),
                    kk,
                    fc,
                ),
    {
        let sv = cview(start_coords);
        assert forall|fc: (int, int), kk: int|
            pre.mp(colour, start_coords, dist) == Some(fc) && pre.is_first_of_colour(
                sv,
                colour,
                kk,
            ) implies Self::move_outcome_ok(pre, colour, fc, m) && Self::move_counts_ok(
            pre,
            post,
            colour,
            sv,
            fc,
        ) && #[trigger] Self::move_cells_ok(pre, post, colour, sv, kk, fc) by {
            assert(fc == fcv);
            assert(kk == k0) by {
                if kk < k0 {
                    assert(pre.gcol(pre.occ_at(sv)[kk]) != colour);
                } else if kk > k0 {
                    assert(pre.gcol(pre.occ_at(sv)[k0]) != colour);
                }
            }
        }
    }

    /// A move that captures nothing keeps the invariant and meets the
    /// move contract: the token leaves the start square, lands on `fcv`
    /// unless it finished, and the bookkeeping shifts by at most one
    /// token of the moving colour.
    #[verifier::rlimit(60)]
    proof fn lemma_move_apply_wf(
        pre: LudoEngine,
        post: LudoEngine,
        colour: Rang,
        sv: (int, int),
        k0: int,
        fcv: (int, int),
        id: usize,
        unl: bool,
        fin: bool,
        lpos: int,
    )
        requires
            pre.wf(),
            in_bounds(sv),
            in_bounds(fcv),
            pre.is_first_of_colour(sv, colour, k0),
            id == pre.occ_at(sv)[k0],
            pre.gcol(id) == colour,
            pre.gpos(id) == sv,
            !pre.attack_happens(colour, fcv),
            unl <==> fcv == start_coord_spec(colour),
            fin <==> fcv == end_coord_spec(colour),
            !(unl && fin),
            post.active_colours@ == pre.active_colours@,
            post.curr_colour == pre.curr_colour,
            post.board@.len() == 15,
            forall|rr: int| 0 <= rr < 15 ==> (#[trigger] post.board@[rr])@.len() == 15,
            post.locked_gotis@.len() == 4,
            post.moving_gotis@.len() == 4,
            post.num_finished@.len() == 4,
            post.ngotis() == pre.ngotis(),
            forall|x: usize| x < pre.ngotis() ==> #[trigger] post.gcol(x) == pre.gcol(x),
            forall|x: usize|
                x < pre.ngotis() && x != id ==> #[trigger] post.gpos(x) == pre.gpos(x),
            post.gpos(id) == fcv,
            forall|rr: int, cc: int|
                0 <= rr < 15 && 0 <= cc < 15 ==> #[trigger] post.kind_rc(rr, cc) == pre.kind_rc(
                    rr,
                    cc,
                ),
            forall|rr: int, cc: int|
                0 <= rr < 15 && 0 <= cc < 15 && (rr, cc) != sv && (rr, cc) != fcv
                    ==> #[trigger] post.occ_rc(rr, cc) == pre.occ_rc(rr, cc),
            fin ==> sv != fcv && post.occ_at(sv) == pre.occ_at(sv).remove(k0) && post.occ_at(fcv)
                == pre.occ_at(fcv),
            !fin && sv != fcv ==> post.occ_at(sv) == pre.occ_at(sv).remove(k0) && post.occ_at(fcv)
                == pre.occ_at(fcv).push(id),
            !fin && sv == fcv ==> post.occ_at(sv) == pre.occ_at(sv).remove(k0).push(id),
            forall|i: int|
                0 <= i < 4 && i != team_index(colour) ==> (#[trigger] post.locked_gotis@[i])@
                    == pre.locked_gotis@[i]@ && post.moving_gotis@[i]@ == pre.moving_gotis@[i]@
                    && post.num_finished@[i] == pre.num_finished@[i],
            unl ==> pre.in_locked(id) && 0 <= lpos < pre.lseq(colour).len() && pre.lseq(colour)[lpos]
                == id && post.lseq(colour) == pre.lseq(colour).remove(lpos) && post.mseq(colour)
                == pre.mseq(colour).push(id) && post.fin(colour) == pre.fin(colour) && spec_kind(
                pre.active_colours@,
                fcv,
            ) == LudoCellType::SafeSpot,
            fin ==> pre.in_moving(id) && 0 <= lpos < pre.mseq(colour).len() && pre.mseq(colour)[lpos]
                == id && post.mseq(colour) == pre.mseq(colour).remove(lpos) && post.lseq(colour)
                == pre.lseq(colour) && post.fin(colour) == pre.fin(colour) + 1,
            !unl && !fin ==> pre.in_moving(id) && post.lseq(colour) == pre.lseq(colour)
                && post.mseq(colour) == pre.mseq(colour) && post.fin(colour) == pre.fin(colour)
                && pre.moving_kind_ok(spec_kind(pre.active_colours@, fcv)),
        ensures
            post.wf(),
            Self::move_counts_ok(pre, post, colour, sv, fcv),
            Self::move_cells_ok(pre, post, colour, sv, k0, fcv),
    {
        let ti = team_index(colour);
        Self::lemma_team_index_roundtrip(colour);
        lemma_remove_props(pre.occ_at(sv), k0);
        assert(pre.occ_at(sv).no_duplicates());
        assert(!pre.occ_at(sv).remove(k0).contains(id));
        if unl {
            lemma_remove_props(pre.lseq(colour), lpos);
        }
        if fin {
            lemma_remove_props(pre.mseq(colour), lpos);
        }
        // where each token is listed after the move
        assert(!post.in_locked(id) && (fin ==> !post.in_moving(id)) && (!fin ==> post.in_moving(
            id,
        ))) by {
            if unl {
                assert(!post.lseq(colour).contains(id));
                assert(post.mseq(colour)[post.mseq(colour).len() - 1] == id);
            } else {
                assert(!pre.in_locked(id));
                if fin {
                    assert(!post.mseq(colour).contains(id));
                } else {
                    assert(pre.mseq(colour).contains(id));
                }
            }
        }
        assert forall|x: usize|
            x < pre.ngotis() && x != id implies (#[trigger] post.in_locked(x) == pre.in_locked(x))
            && (post.in_moving(x) == pre.in_moving(x)) by {
            if team_index(pre.gcol(x)) == ti {
                assert(pre.gcol(x) == colour) by {
                    Self::lemma_team_index_roundtrip(pre.gcol(x));
                }
                if unl {
                    assert(pre.lseq(colour).contains(x) == post.lseq(colour).contains(x));
                    assert(pre.mseq(colour).contains(x) == post.mseq(colour).contains(x)) by {
                        if post.mseq(colour).contains(x) {
                            let j = choose|j: int|
                                0 <= j < post.mseq(colour).len() && post.mseq(colour)[j] == x;
                            assert(pre.mseq(colour).push(id)[j] == x);
                        }
                        if pre.mseq(colour).contains(x) {
                            let j = choose|j: int|
                                0 <= j < pre.mseq(colour).len() && pre.mseq(colour)[j] == x;
                            assert(post.mseq(colour)[j] == x);
                        }
                    }
                } else if fin {
                    assert(pre.mseq(colour).contains(x) == post.mseq(colour).contains(x));
                }
            } else {
                assert(post.locked_gotis@[team_index(pre.gcol(x))]@ == pre.locked_gotis@[team_index(
                    pre.gcol(x),
                )]@);
            }
        }
        assert(post.wf_shape());
        assert(post.wf_kinds()) by {
            assert forall|rr: int, cc: int| 0 <= rr < 15 && 0 <= cc < 15 implies #[trigger] post
                .kind_rc(rr, cc) == spec_kind(post.active_colours@, (rr, cc)) by {
                assert(pre.kind_rc(rr, cc) == spec_kind(pre.active_colours@, (rr, cc)));
            }
        }
        assert(post.wf_locked_lists()) by {
            assert forall|i: int, k: int|
                0 <= i < 4 && 0 <= k < post.locked_gotis@[i]@.len() implies {
                let x = #[trigger] post.locked_gotis@[i]@[k];
                &&& x < post.ngotis()
                &&& team_index(post.gcol(x)) == i
                &&& post.is_active(post.gcol(x))
                &&& is_pen_coord(post.gcol(x), post.gpos(x))
            } by {
                let x = post.locked_gotis@[i]@[k];
                assert(pre.lseq(colour) == pre.locked_gotis@[ti]@);
                assert(pre.locked_gotis@[i]@.contains(x)) by {
                    if i == ti && unl {
                        assert(pre.lseq(colour).remove(lpos).contains(x));
                    } else {
                        assert(post.locked_gotis@[i]@ == pre.locked_gotis@[i]@);
                    }
                }
                let kk = choose|kk: int|
                    0 <= kk < pre.locked_gotis@[i]@.len() && pre.locked_gotis@[i]@[kk] == x;
                assert(x != id) by {
                    if unl {
                        assert(!post.lseq(colour).contains(id));
                        if i != ti {
                            assert(team_index(pre.gcol(x)) == i);
                        }
                    } else {
                        assert(!pre.in_locked(id));
                        assert(team_index(pre.gcol(x)) == i);
                    }
                }
            }
        }
        assert(post.wf_moving_lists()) by {
            assert forall|i: int, k: int|
                0 <= i < 4 && 0 <= k < post.moving_gotis@[i]@.len() implies {
                let x = #[trigger] post.moving_gotis@[i]@[k];
                &&& x < post.ngotis()
                &&& team_index(post.gcol(x)) == i
                &&& post.is_active(post.gcol(x))
                &&& in_bounds(post.gpos(x))
                &&& post.moving_kind_ok(spec_kind(post.active_colours@, post.gpos(x)))
            } by {
                let x = post.moving_gotis@[i]@[k];
                if i == ti && unl && k == post.mseq(colour).len() - 1 {
                    assert(x == id);
                    assert(post.gcol(id) == colour && post.gpos(id) == fcv);
                    assert(pre.is_active(colour)) by {
                        assert(id < pre.ngotis());
                    }
                } else if i == ti && !unl && !fin && pre.mseq(colour).contains(x) && x == id {
                    assert(post.gpos(id) == fcv);
                    assert(pre.is_active(colour)) by {
                        assert(id < pre.ngotis());
                    }
                } else {
                    assert(pre.moving_gotis@[i]@.contains(x)) by {
                        if i == ti {
                            if unl {
                                assert(pre.mseq(colour).push(id)[k] == x);
                            } else if fin {
                                assert(pre.mseq(colour).remove(lpos).contains(x));
                            }
                        } else {
                            assert(post.locked_gotis@[i]@ == pre.locked_gotis@[i]@);
                            assert(post.moving_gotis@[i]@ == pre.moving_gotis@[i]@);
                        }
                    }
                    let kk = choose|kk: int|
                        0 <= kk < pre.moving_gotis@[i]@.len() && pre.moving_gotis@[i]@[kk] == x;
                    if x == id {
                        assert(!unl && !fin);
                        assert(post.gpos(id) == fcv);
                    }
                }
            }
        }
        assert(post.wf_list_nodup()) by {
            assert forall|i: int| 0 <= i < 4 implies (#[trigger] post.locked_gotis@[i])@
                .no_duplicates() by {
                if i == ti && unl {
                    assert(pre.lseq(colour).no_duplicates());
                } else {
                    assert(post.locked_gotis@[i]@ == pre.locked_gotis@[i]@);
                    assert(pre.locked_gotis@[i]@.no_duplicates());
                }
            }
            assert forall|i: int| 0 <= i < 4 implies (#[trigger] post.moving_gotis@[i])@
                .no_duplicates() by {
                if i == ti && unl {
                    assert(!pre.mseq(colour).contains(id)) by {
                        if pre.in_moving(id) {
                        }
                    }
                    lemma_push_nodup(pre.mseq(colour), id);
                } else if i == ti && fin {
                    assert(pre.mseq(colour).no_duplicates());
                } else {
                    assert(post.locked_gotis@[i]@ == pre.locked_gotis@[i]@);
                    assert(post.moving_gotis@[i]@ == pre.moving_gotis@[i]@);
                    assert(pre.moving_gotis@[i]@.no_duplicates());
                }
            }
            assert forall|i: int, x: usize| 0 <= i < 4 implies !((
            #[trigger] post.locked_gotis@[i]@.contains(x)) && post.moving_gotis@[i]@.contains(x))
                by {
                if post.locked_gotis@[i]@.contains(x) && post.moving_gotis@[i]@.contains(x) {
                    let ka = choose|ka: int|
                        0 <= ka < post.locked_gotis@[i]@.len() && post.locked_gotis@[i]@[ka] == x;
                    let kb = choose|kb: int|
                        0 <= kb < post.moving_gotis@[i]@.len() && post.moving_gotis@[i]@[kb] == x;
                    assert(team_index(post.gcol(x)) == i);
                    if x == id {
                        assert(!post.in_locked(id));
                        assert(post.lseq(colour).contains(id));
                    } else {
                        assert(pre.in_locked(x) && pre.in_moving(x));
                        assert(pre.lseq(pre.gcol(x)).contains(x) && pre.mseq(pre.gcol(x)).contains(
                            x,
                        ));
                        assert(!(pre.locked_gotis@[i]@.contains(x) && pre.moving_gotis@[i]@
                            .contains(x)));
                    }
                }
            }
        }
        assert(post.wf_tokens()) by {
            assert forall|x: usize| x < post.ngotis() implies {
                &&& post.is_active(#[trigger] post.gcol(x))
                &&& (post.on_board(x) || post.gpos(x) == end_coord_spec(post.gcol(x)))
            } by {
                assert(pre.is_active(pre.gcol(x)));
                if x == id {
                    if fin {
                        assert(post.gpos(id) == end_coord_spec(colour));
                    }
                } else {
                    assert(pre.on_board(x) || pre.gpos(x) == end_coord_spec(pre.gcol(x)));
                }
            }
        }
        assert(post.wf_cells()) by {
            assert forall|rr: int, cc: int, k: int|
                0 <= rr < 15 && 0 <= cc < 15 && 0 <= k < post.occ_rc(rr, cc).len() implies {
                let x = #[trigger] post.occ_rc(rr, cc)[k];
                &&& x < post.ngotis()
                &&& post.gpos(x) == (rr, cc)
                &&& post.on_board(x)
            } by {
                let x = post.occ_rc(rr, cc)[k];
                assert(pre.occ_at(sv)[k0] == id);
                if sv == fcv && (rr, cc) == sv {
                    assert(!fin);
                    assert(post.occ_at(sv) == pre.occ_at(sv).remove(k0).push(id));
                    if k < pre.occ_at(sv).remove(k0).len() {
                        assert(pre.occ_at(sv).remove(k0)[k] == x);
                        assert(pre.occ_at(sv).remove(k0).contains(x));
                        assert(pre.occ_at(sv).contains(x));
                        let kk = choose|kk: int|
                            0 <= kk < pre.occ_at(sv).len() && pre.occ_at(sv)[kk] == x;
                        assert(x != id);
                    } else {
                        assert(x == id);
                    }
                } else if (rr, cc) == sv {
                    assert(post.occ_at(sv) == pre.occ_at(sv).remove(k0));
                    assert(pre.occ_at(sv).remove(k0)[k] == x);
                    assert(pre.occ_at(sv).remove(k0).contains(x));
                    assert(pre.occ_at(sv).contains(x));
                    let kk = choose|kk: int|
                        0 <= kk < pre.occ_at(sv).len() && pre.occ_at(sv)[kk] == x;
                    assert(x != id);
                } else if (rr, cc) == fcv {
                    assert(sv != fcv);
                    if fin {
                        assert(post.occ_at(fcv) == pre.occ_at(fcv));
                        assert(pre.occ_at(fcv)[k] == x);
                        assert(x != id) by {
                            assert(pre.gpos(x) == fcv);
                        }
                    } else {
                        assert(post.occ_at(fcv) == pre.occ_at(fcv).push(id));
                        if k < pre.occ_at(fcv).len() {
                            assert(pre.occ_at(fcv)[k] == x);
                            assert(x != id) by {
                                assert(pre.gpos(x) == fcv);
                            }
                        } else {
                            assert(x == id);
                        }
                    }
                } else {
                    assert(post.occ_rc(rr, cc) == pre.occ_rc(rr, cc));
                    assert(pre.occ_rc(rr, cc)[k] == x);
                    assert(x != id) by {
                        assert(pre.gpos(x) == (rr, cc));
                    }
                }
            }
            assert forall|rr: int, cc: int| 0 <= rr < 15 && 0 <= cc < 15 implies (
            #[trigger] post.occ_rc(rr, cc)).no_duplicates() by {
                assert(pre.occ_rc(rr, cc).no_duplicates());
                if sv == fcv && (rr, cc) == sv {
                    assert(!fin);
                    lemma_push_nodup(pre.occ_at(sv).remove(k0), id);
                } else if (rr, cc) == sv {
                } else if (rr, cc) == fcv {
                    assert(sv != fcv);
                    if !fin {
                        assert(!pre.occ_at(fcv).contains(id)) by {
                            if pre.occ_at(fcv).contains(id) {
                                let kk = choose|kk: int|
                                    0 <= kk < pre.occ_at(fcv).len() && pre.occ_at(fcv)[kk] == id;
                                assert(pre.gpos(id) == fcv);
                            }
                        }
                        lemma_push_nodup(pre.occ_at(fcv), id);
                    }
                }
            }
        }
        assert(post.wf_placed_except(Seq::empty())) by {
            assert forall|x: usize|
                x < post.ngotis() && #[trigger] post.on_board(x) && !Seq::<usize>::empty().contains(
                    x,
                ) implies in_bounds(post.gpos(x)) && post.occ_rc(post.gpos(x).0, post.gpos(x).1)
                .contains(x) by {
                if x == id {
                    assert(!fin);
                    if sv != fcv {
                        assert(post.occ_at(fcv) == pre.occ_at(fcv).push(id));
                        assert(post.occ_at(fcv)[post.occ_at(fcv).len() - 1] == id);
                    } else {
                        assert(post.occ_at(sv)[post.occ_at(sv).len() - 1] == id);
                    }
                } else {
                    assert(pre.on_board(x));
                    assert(in_bounds(pre.gpos(x)) && pre.occ_rc(pre.gpos(x).0, pre.gpos(x).1)
                        .contains(x));
                    let p = pre.gpos(x);
                    let kk = choose|kk: int|
                        0 <= kk < pre.occ_at(p).len() && pre.occ_at(p)[kk] == x;
                    assert(x != pre.occ_at(sv)[k0]);
                    if p == sv && (sv != fcv || fin) {
                        assert(pre.occ_at(sv).remove(k0).contains(x));
                    } else if p == sv {
                        assert(pre.occ_at(sv).remove(k0).contains(x));
                        let kj = choose|kj: int|
                            0 <= kj < pre.occ_at(sv).remove(k0).len() && pre.occ_at(sv).remove(
                                k0,
                            )[kj] == x;
                        assert(post.occ_at(sv)[kj] == x);
                    } else if p == fcv && !fin && sv != fcv {
                        assert(post.occ_at(fcv)[kk] == x);
                    } else {
                        assert(post.occ_rc(p.0, p.1) == pre.occ_rc(p.0, p.1));
                    }
                }
            }
        }
        assert(post.wf_counts()) by {
            assert forall|i: int| 0 <= i < 4 implies #[trigger] post.team_total(i) == (
            if post.is_active(colour_at(i)) {
                4int
            } else {
                0int
            }) by {
                assert(pre.team_total(i) == (if pre.is_active(colour_at(i)) {
                    4int
                } else {
                    0int
                }));
                if i != ti {
                    assert(post.locked_gotis@[i]@ == pre.locked_gotis@[i]@);
                }
            }
        }
        assert(Self::move_counts_ok(pre, post, colour, sv, fcv)) by {
            assert forall|t: Rang| t != colour implies #[trigger] post.fin(t) == pre.fin(t) by {
                Self::lemma_team_index_roundtrip(t);
                assert(post.locked_gotis@[team_index(t)]@ == pre.locked_gotis@[team_index(t)]@);
            }
            assert forall|t: Rang|
                t != colour implies (#[trigger] post.lseq(t)).len() == pre.lseq(t).len()
                && post.mseq(t).len() == pre.mseq(t).len() by {
                Self::lemma_team_index_roundtrip(t);
                assert(post.locked_gotis@[team_index(t)]@ == pre.locked_gotis@[team_index(t)]@);
            }
        }
        assert(Self::move_cells_ok(pre, post, colour, sv, k0, fcv)) by {
            assert forall|x: usize| x < pre.ngotis() implies #[trigger] post.gcol(x) == pre.gcol(
                x,
            ) by {}
            assert forall|x: usize|
                x < pre.ngotis() && x != id && !(pre.attack_happens(colour, fcv) && pre.occ_at(
                    fcv,
                ).contains(x) && pre.gcol(x) != colour) implies #[trigger] post.gpos(x)
                == pre.gpos(x) && post.in_locked(x) == pre.in_locked(x) && post.in_moving(x)
                == pre.in_moving(x) by {
                assert(post.in_locked(x) == pre.in_locked(x) && post.in_moving(x)
                    == pre.in_moving(x));
            }
        }
    }

    /// After a capturing landing is rebuilt, the board is well formed
    /// except for the captured tokens, which stand in no cell and are
    /// still listed as moving.
    #[verifier::rlimit(100)]
    proof fn lemma_rebuild_dest_state(
        pre: LudoEngine,
        m2: LudoEngine,
        colour: Rang,
        sv: (int, int),
        k0: int,
        fcv: (int, int),
        id: usize,
        dest0: Seq<usize>,
        keepv: Seq<usize>,
        capturedv: Seq<usize>,
    )
        requires
            pre.wf(),
            in_bounds(sv),
            in_bounds(fcv),
            0 <= k0 < pre.occ_at(sv).len(),
            id == pre.occ_at(sv)[k0],
            pre.gcol(id) == colour,
            pre.gpos(id) == sv,
            pre.in_moving(id),
            !is_any_pen(fcv),
            !is_any_pen(sv),
            pre.moving_kind_ok(spec_kind(pre.active_colours@, fcv)),
            m2.active_colours@ == pre.active_colours@,
            m2.board@.len() == 15,
            forall|rr: int| 0 <= rr < 15 ==> (#[trigger] m2.board@[rr])@.len() == 15,
            m2.locked_gotis@ == pre.locked_gotis@,
            m2.moving_gotis@ == pre.moving_gotis@,
            m2.num_finished@ == pre.num_finished@,
            m2.ngotis() == pre.ngotis(),
            forall|x: usize| x < pre.ngotis() ==> #[trigger] m2.gcol(x) == pre.gcol(x),
            forall|x: usize|
                x < pre.ngotis() && x != id ==> #[trigger] m2.gpos(x) == pre.gpos(x),
            m2.gpos(id) == fcv,
            forall|rr: int, cc: int|
                0 <= rr < 15 && 0 <= cc < 15 ==> #[trigger] m2.kind_rc(rr, cc) == pre.kind_rc(
                    rr,
                    cc,
                ),
            forall|rr: int, cc: int|
                0 <= rr < 15 && 0 <= cc < 15 && (rr, cc) != sv && (rr, cc) != fcv
                    ==> #[trigger] m2.occ_rc(rr, cc) == pre.occ_rc(rr, cc),
            sv != fcv ==> m2.occ_at(sv) == pre.occ_at(sv).remove(k0) && dest0 == pre.occ_at(fcv),
            sv == fcv ==> dest0 == pre.occ_at(sv).remove(k0),
            m2.occ_at(fcv) == keepv,
            keepv == dest0.filter(pre.col_pred(colour)).push(id),
            capturedv == dest0.filter(pre.notcol_pred(colour)),
        ensures
            m2.wf_except(capturedv),
            capturedv.no_duplicates(),
            keepv.no_duplicates(),
            m2.lseq(colour) == pre.lseq(colour),
            m2.mseq(colour) == pre.mseq(colour),
            forall|j: int|
                0 <= j < capturedv.len() ==> (#[trigger] capturedv[j]) < pre.ngotis() && m2.gpos(
                    capturedv[j],
                ) == fcv && m2.in_moving(capturedv[j]) && m2.gcol(capturedv[j]) != colour,
            forall|j: int, rr: int, cc: int|
                0 <= j < capturedv.len() && 0 <= rr < 15 && 0 <= cc < 15 ==> !(
                #[trigger] m2.occ_rc(rr, cc).contains(capturedv[j])),
            forall|x: usize|
                #[trigger] capturedv.contains(x) ==> dest0.contains(x) && pre.gcol(x) != colour
                    && x != id,
    {
        broadcast use vstd::seq_lib::group_filter_ensures;

        Self::lemma_team_index_roundtrip(colour);
        lemma_remove_props(pre.occ_at(sv), k0);
        assert(keepv == dest0.filter(pre.col_pred(colour)).push(id));
        assert(capturedv == dest0.filter(pre.notcol_pred(colour)));
        assert(m2.occ_at(fcv) == keepv);
                lemma_filter_no_dup(dest0, pre.col_pred(colour));
        lemma_filter_no_dup(dest0, pre.notcol_pred(colour));
        assert(!dest0.filter(pre.col_pred(colour)).contains(id)) by {
            if dest0.filter(pre.col_pred(colour)).contains(id) {
                dest0.lemma_filter_contains_rev(pre.col_pred(colour), id);
            }
        }
        lemma_push_nodup(dest0.filter(pre.col_pred(colour)), id);
        assert(keepv.no_duplicates());
        assert(capturedv.no_duplicates());
        assert forall|x: usize| #[trigger] capturedv.contains(x) implies dest0.contains(x)
            && pre.gcol(x) != colour && x != id by {
            dest0.lemma_filter_contains_rev(pre.notcol_pred(colour), x);
            let kk = choose|kk: int| 0 <= kk < capturedv.len() && capturedv[kk] == x;
            assert(pre.notcol_pred(colour)(capturedv[kk]));
        }
        assert forall|x: usize| #[trigger] keepv.contains(x) implies (x == id || (
        dest0.contains(x) && pre.gcol(x) == colour)) by {
            let kk = choose|kk: int| 0 <= kk < keepv.len() && keepv[kk] == x;
            if kk < keepv.len() - 1 {
                assert(dest0.filter(pre.col_pred(colour))[kk] == x);
                assert(dest0.filter(pre.col_pred(colour)).contains(x));
                dest0.lemma_filter_contains_rev(pre.col_pred(colour), x);
                assert(pre.col_pred(colour)(x));
            }
        }
        // the intermediate state is well formed but for the lifted
        // captured tokens
        assert(m2.wf_shape());
        assert(m2.wf_kinds()) by {
            assert forall|rr: int, cc: int|
                0 <= rr < 15 && 0 <= cc < 15 implies #[trigger] m2.kind_rc(rr, cc)
                == spec_kind(m2.active_colours@, (rr, cc)) by {
                assert(pre.kind_rc(rr, cc) == spec_kind(pre.active_colours@, (rr, cc)));
                assert(m2.kind_rc(rr, cc) == pre.kind_rc(rr, cc));
            }
        }
        assert forall|x: usize| x < pre.ngotis() && x != id implies #[trigger] m2.gpos(x)
            == pre.gpos(x) && m2.gcol(x) == pre.gcol(x) by {}
        assert(m2.gpos(id) == fcv);
        assert(m2.wf_locked_lists()) by {
            assert forall|i: int, k: int|
                0 <= i < 4 && 0 <= k < m2.locked_gotis@[i]@.len() implies {
                let x = #[trigger] m2.locked_gotis@[i]@[k];
                &&& x < m2.ngotis()
                &&& team_index(m2.gcol(x)) == i
                &&& m2.is_active(m2.gcol(x))
                &&& is_pen_coord(m2.gcol(x), m2.gpos(x))
            } by {
                let x = m2.locked_gotis@[i]@[k];
                assert(pre.locked_gotis@[i]@[k] == x);
                assert(x != id) by {
                    if pre.in_moving(id) && pre.lseq(pre.gcol(x)).contains(x) {
                        assert(team_index(pre.gcol(x)) == i);
                        if x == id {
                            assert(pre.in_locked(id));
                        }
                    }
                }
            }
        }
        assert(m2.wf_moving_lists()) by {
            assert forall|i: int, k: int|
                0 <= i < 4 && 0 <= k < m2.moving_gotis@[i]@.len() implies {
                let x = #[trigger] m2.moving_gotis@[i]@[k];
                &&& x < m2.ngotis()
                &&& team_index(m2.gcol(x)) == i
                &&& m2.is_active(m2.gcol(x))
                &&& in_bounds(m2.gpos(x))
                &&& m2.moving_kind_ok(spec_kind(m2.active_colours@, m2.gpos(x)))
            } by {
                let x = m2.moving_gotis@[i]@[k];
                assert(pre.moving_gotis@[i]@[k] == x);
                if x == id {
                    assert(m2.gpos(id) == fcv);
                }
            }
        }
        assert(m2.wf_list_nodup()) by {
            assert forall|i: int| 0 <= i < 4 implies (#[trigger] m2.locked_gotis@[i])@
                .no_duplicates() by {
                assert(pre.locked_gotis@[i]@.no_duplicates());
            }
            assert forall|i: int| 0 <= i < 4 implies (#[trigger] m2.moving_gotis@[i])@
                .no_duplicates() by {
                assert(pre.moving_gotis@[i]@.no_duplicates());
            }
            assert forall|i: int, x: usize| 0 <= i < 4 implies !((
            #[trigger] m2.locked_gotis@[i]@.contains(x)) && m2.moving_gotis@[i]@.contains(x))
                by {
                assert(!(pre.locked_gotis@[i]@.contains(x) && pre.moving_gotis@[i]@.contains(
                    x,
                )));
            }
        }
        assert(m2.wf_tokens()) by {
            assert forall|x: usize| x < m2.ngotis() implies {
                &&& m2.is_active(#[trigger] m2.gcol(x))
                &&& (m2.on_board(x) || m2.gpos(x) == end_coord_spec(m2.gcol(x)))
            } by {
                assert(pre.is_active(pre.gcol(x)));
                assert(pre.on_board(x) || pre.gpos(x) == end_coord_spec(pre.gcol(x)));
            }
        }
        assert(m2.wf_cells()) by {
            assert forall|rr: int, cc: int, k: int|
                0 <= rr < 15 && 0 <= cc < 15 && 0 <= k < m2.occ_rc(rr, cc).len() implies {
                let x = #[trigger] m2.occ_rc(rr, cc)[k];
                &&& x < m2.ngotis()
                &&& m2.gpos(x) == (rr, cc)
                &&& m2.on_board(x)
            } by {
                let x = m2.occ_rc(rr, cc)[k];
                if (rr, cc) == fcv {
                    assert(keepv[k] == x);
                    assert(keepv.contains(x));
                    if x == id {
                        assert(m2.gpos(id) == fcv);
                        assert(m2.in_moving(id)) by {
                            assert(pre.mseq(colour).contains(id));
                        }
                    } else {
                        assert(dest0.contains(x) && pre.gcol(x) == colour);
                        assert(pre.gpos(x) == fcv) by {
                            let kk = choose|kk: int|
                                0 <= kk < dest0.len() && dest0[kk] == x;
                        }
                        assert(pre.on_board(x)) by {
                            let kk = choose|kk: int|
                                0 <= kk < dest0.len() && dest0[kk] == x;
                        }
                    }
                } else if (rr, cc) == sv && sv != fcv {
                    assert(m2.occ_rc(rr, cc) == pre.occ_at(sv).remove(k0));
                    lemma_remove_props(pre.occ_at(sv), k0);
                    assert(pre.occ_at(sv).remove(k0).contains(x));
                    assert(pre.occ_at(sv).contains(x));
                    let kk = choose|kk: int|
                        0 <= kk < pre.occ_at(sv).len() && pre.occ_at(sv)[kk] == x;
                    assert(x != id);
                } else {
                    assert(m2.occ_rc(rr, cc) == pre.occ_rc(rr, cc));
                    assert(pre.occ_rc(rr, cc)[k] == x);
                    assert(x != id) by {
                        assert(pre.gpos(x) == (rr, cc));
                    }
                }
            }
            assert forall|rr: int, cc: int| 0 <= rr < 15 && 0 <= cc < 15 implies (
            #[trigger] m2.occ_rc(rr, cc)).no_duplicates() by {
                if (rr, cc) == fcv {
                    assert(m2.occ_rc(rr, cc) == keepv);
                } else if (rr, cc) == sv && sv != fcv {
                    lemma_remove_props(pre.occ_at(sv), k0);
                } else {
                    assert(m2.occ_rc(rr, cc) == pre.occ_rc(rr, cc));
                    assert(pre.occ_rc(rr, cc).no_duplicates());
                }
            }
        }
        assert(m2.wf_placed_except(capturedv)) by {
            assert forall|x: usize|
                x < m2.ngotis() && #[trigger] m2.on_board(x) && !capturedv.contains(x)
                implies in_bounds(m2.gpos(x)) && m2.occ_rc(m2.gpos(x).0, m2.gpos(x).1)
                .contains(x) by {
                if x == id {
                    assert(m2.occ_at(fcv)[keepv.len() - 1] == id);
                } else {
                    assert(pre.on_board(x));
                    assert(in_bounds(pre.gpos(x)) && pre.occ_rc(pre.gpos(x).0, pre.gpos(x).1)
                        .contains(x));
                    let p = pre.gpos(x);
                    let kk = choose|kk: int|
                        0 <= kk < pre.occ_at(p).len() && pre.occ_at(p)[kk] == x;
                    assert(x != pre.occ_at(sv)[k0]);
                    if p == fcv {
                        assert(dest0.contains(x)) by {
                            if sv == fcv {
                                lemma_remove_props(pre.occ_at(sv), k0);
                            }
                        }
                        let kd = choose|kd: int| 0 <= kd < dest0.len() && dest0[kd] == x;
                        assert(pre.gcol(x) == colour) by {
                            if pre.gcol(x) != colour {
                                dest0.lemma_filter_contains(pre.notcol_pred(colour), kd);
                            }
                        }
                        dest0.lemma_filter_contains(pre.col_pred(colour), kd);
                        assert(dest0.filter(pre.col_pred(colour)).contains(x));
                        let kf = choose|kf: int|
                            0 <= kf < dest0.filter(pre.col_pred(colour)).len() && dest0.filter(
                                pre.col_pred(colour),
                            )[kf] == x;
                        assert(keepv[kf] == x);
                    } else if p == sv {
                        lemma_remove_props(pre.occ_at(sv), k0);
                        assert(m2.occ_at(sv) == pre.occ_at(sv).remove(k0));
                        assert(pre.occ_at(sv).remove(k0).contains(x));
                    } else {
                        assert(m2.occ_rc(p.0, p.1) == pre.occ_rc(p.0, p.1));
                    }
                }
            }
        }
        assert(m2.wf_counts()) by {
            assert forall|i: int| 0 <= i < 4 implies #[trigger] m2.team_total(i) == (
            if m2.is_active(colour_at(i)) {
                4int
            } else {
                0int
            }) by {
                assert(pre.team_total(i) == (if pre.is_active(colour_at(i)) {
                    4int
                } else {
                    0int
                }));
                assert(m2.locked_gotis@[i] == pre.locked_gotis@[i]);
            }
        }
        assert(m2.wf_except(capturedv));
        // entry facts for the capture loop
        assert forall|j: int|
            0 <= j < capturedv.len() implies (#[trigger] capturedv[j]) < pre.ngotis()
            && m2.gpos(capturedv[j]) == fcv && m2.in_moving(capturedv[j]) && m2.gcol(
            capturedv[j],
        ) != colour by {
            let x = capturedv[j];
            assert(capturedv.contains(x));
            assert(dest0.contains(x) && pre.gcol(x) != colour && x != id);
            let kd = choose|kd: int| 0 <= kd < dest0.len() && dest0[kd] == x;
            assert(pre.on_board(x) && pre.gpos(x) == fcv);
            assert(pre.in_moving(x)) by {
                if pre.in_locked(x) {
                    assert(is_pen_coord(pre.gcol(x), fcv));
                }
            }
        }
        assert forall|j: int, rr: int, cc: int|
            0 <= j < capturedv.len() && 0 <= rr < 15 && 0 <= cc < 15 implies !(
        #[trigger] m2.occ_rc(rr, cc).contains(capturedv[j])) by {
            let x = capturedv[j];
            assert(capturedv.contains(x));
            assert(dest0.contains(x) && pre.gcol(x) != colour && x != id);
            if m2.occ_rc(rr, cc).contains(x) {
                let kk = choose|kk: int|
                    0 <= kk < m2.occ_rc(rr, cc).len() && m2.occ_rc(rr, cc)[kk] == x;
                if (rr, cc) == fcv {
                    assert(keepv.contains(x));
                } else if (rr, cc) == sv && sv != fcv {
                    lemma_remove_props(pre.occ_at(sv), k0);
                    assert(pre.occ_at(sv).contains(x));
                    let kj = choose|kj: int|
                        0 <= kj < pre.occ_at(sv).len() && pre.occ_at(sv)[kj] == x;
                    assert(pre.gpos(x) == sv);
                } else {
                    assert(pre.occ_rc(rr, cc)[kk] == x);
                    assert(pre.gpos(x) == (rr, cc));
                }
            }
        }
        assert(m2.lseq(colour) == pre.lseq(colour));
        assert(m2.mseq(colour) == pre.mseq(colour));
        assert(capturedv.take(0) =~= Seq::<usize>::empty());
        assert forall|tt: Rang|
            tt != colour implies (#[trigger] m2.lseq(tt)).len() == pre.lseq(tt).len()
            + capturedv.take(0).filter(pre.col_pred(tt)).len() && m2.mseq(tt).len()
            == pre.mseq(tt).len() - capturedv.take(0).filter(pre.col_pred(tt)).len() by {
            reveal(Seq::filter);
            assert(m2.locked_gotis@[team_index(tt)]@ == pre.locked_gotis@[team_index(tt)]@);
            assert(capturedv.take(0).filter(pre.col_pred(tt)).len() == 0);
        }
        assert(capturedv.skip(0) =~= capturedv);
        assert(m2.wf_except(capturedv.skip(0)));
    }

    /// Penning one captured token moves nothing else: every token that
    /// is not the mover and not captured keeps its place and its lists.
    proof fn lemma_capture_step_keeps_others(
        pre: LudoEngine,
        e1: LudoEngine,
        e2: LudoEngine,
        ccol: Rang,
        ci: int,
        cid: usize,
        id: usize,
        capturedv: Seq<usize>,
        mpos: int,
    )
        requires
            ci == team_index(ccol),
            0 <= mpos < e1.mseq(ccol).len(),
            e1.mseq(ccol)[mpos] == cid,
            !e1.lseq(ccol).contains(cid),
            e2.lseq(ccol) == e1.lseq(ccol).push(cid),
            e2.mseq(ccol) == e1.mseq(ccol).remove(mpos),
            forall|i: int|
                0 <= i < 4 && i != ci ==> (#[trigger] e2.locked_gotis@[i])@
                    == e1.locked_gotis@[i]@ && e2.moving_gotis@[i]@ == e1.moving_gotis@[i]@,
            e2.locked_gotis@.len() == 4,
            e2.moving_gotis@.len() == 4,
            e1.locked_gotis@.len() == 4,
            e1.moving_gotis@.len() == 4,
            e2.ngotis() == pre.ngotis(),
            e1.ngotis() == pre.ngotis(),
            forall|x: usize| x < pre.ngotis() ==> #[trigger] e1.gcol(x) == pre.gcol(x),
            forall|x: usize| x < pre.ngotis() ==> #[trigger] e2.gcol(x) == e1.gcol(x),
            forall|x: usize|
                x < pre.ngotis() && x != cid ==> #[trigger] e2.gpos(x) == e1.gpos(x),
            capturedv.contains(cid),
            forall|x: usize|
                x < pre.ngotis() && x != id && !capturedv.contains(x) ==> #[trigger] e1.gpos(x)
                    == pre.gpos(x) && e1.in_locked(x) == pre.in_locked(x) && e1.in_moving(x)
                    == pre.in_moving(x),
        ensures
            forall|x: usize|
                x < pre.ngotis() && x != id && !capturedv.contains(x) ==> #[trigger] e2.gpos(x)
                    == pre.gpos(x) && e2.in_locked(x) == pre.in_locked(x) && e2.in_moving(x)
                    == pre.in_moving(x),
    {
        lemma_remove_props(e1.mseq(ccol), mpos);
        assert forall|x: usize|
            x < pre.ngotis() && x != id && !capturedv.contains(x) implies #[trigger] e2.gpos(x)
            == pre.gpos(x) && e2.in_locked(x) == pre.in_locked(x) && e2.in_moving(x)
            == pre.in_moving(x) by {
            assert(x != cid);
            assert(e1.gpos(x) == pre.gpos(x));
            assert(e1.in_locked(x) == pre.in_locked(x) && e1.in_moving(x) == pre.in_moving(x));
            let tx = e1.gcol(x);
            if team_index(tx) == ci {
                assert(e2.lseq(ccol).contains(x) == e1.lseq(ccol).contains(x)) by {
                    if e2.lseq(ccol).contains(x) {
                        let kk = choose|kk: int|
                            0 <= kk < e2.lseq(ccol).len() && e2.lseq(ccol)[kk] == x;
                        assert(e1.lseq(ccol).push(cid)[kk] == x);
                        if kk == e1.lseq(ccol).len() {
                            assert(x == cid);
                        }
                    }
                    if e1.lseq(ccol).contains(x) {
                        let kk = choose|kk: int|
                            0 <= kk < e1.lseq(ccol).len() && e1.lseq(ccol)[kk] == x;
                        assert(e2.lseq(ccol)[kk] == x);
                    }
                }
                assert(e2.mseq(ccol).contains(x) == e1.mseq(ccol).contains(x));
            } else {
                assert(e2.locked_gotis@[team_index(tx)]@ == e1.locked_gotis@[team_index(tx)]@);
            }
        }
    }

    /// Resolves a capturing landing: puts the moved token on the
    /// landing square and sends every token of another colour that
    /// stood there back to the first free pen square of its own colour.
    /// Called on the intermediate state in which the moved token has
    /// its new coordinate but stands in no cell yet.
    #[verifier::rlimit(100)]
    fn capture_and_land(
        &mut self,
        colour: Rang,
        start_coords: (u8, u8),
        dist: u8,
        fc: (u8, u8),
        id: usize,
        Ghost(pre): Ghost<LudoEngine>,
        Ghost(k0): Ghost<int>,
    )
        requires
            pre.wf(),
            in_bounds(cview(start_coords)),
            in_bounds(cview(fc)),
            pre.is_first_of_colour(cview(start_coords), colour, k0),
            id == pre.occ_at(cview(start_coords))[k0],
            pre.gcol(id) == colour,
            pre.gpos(id) == cview(start_coords),
            pre.in_moving(id),
            pre.attack_happens(colour, cview(fc)),
            cview(fc) != start_coord_spec(colour),
            cview(fc) != end_coord_spec(colour),
            !is_any_pen(cview(fc)),
            !is_any_pen(cview(start_coords)),
            pre.moving_kind_ok(spec_kind(pre.active_colours@, cview(fc))),
            old(self).active_colours@ == pre.active_colours@,
            old(self).curr_colour == pre.curr_colour,
            old(self).gotis@ == pre.gotis@.update(id as int, LudoGoti { colour, coords: fc }),
            old(self).locked_gotis@ == pre.locked_gotis@,
            old(self).moving_gotis@ == pre.moving_gotis@,
            old(self).num_finished@ == pre.num_finished@,
            old(self).board@.len() == 15,
            forall|rr: int| 0 <= rr < 15 ==> (#[trigger] old(self).board@[rr])@.len() == 15,
            forall|rr: int, cc: int|
                0 <= rr < 15 && 0 <= cc < 15 ==> #[trigger] old(self).kind_rc(rr, cc)
                    == pre.kind_rc(rr, cc),
            forall|rr: int, cc: int|
                0 <= rr < 15 && 0 <= cc < 15 && (rr, cc) != cview(start_coords)
                    ==> #[trigger] old(self).occ_rc(rr, cc) == pre.occ_rc(rr, cc),
            old(self).occ_at(cview(start_coords)) == pre.occ_at(cview(start_coords)).remove(k0),
        ensures
            final(self).wf(),
            final(self).active_colours@ == pre.active_colours@,
            final(self).curr_colour == pre.curr_colour,
            final(self).ngotis() == pre.ngotis(),
            Self::move_counts_ok(pre, *final(self), colour, cview(start_coords), cview(fc)),
            Self::move_cells_ok(pre, *final(self), colour, cview(start_coords), k0, cview(fc)),
    {
        broadcast use vstd::seq_lib::group_filter_ensures;

        let ghost sv = cview(start_coords);
        let ghost fcv = cview(fc);
        let ghost m1 = *self;
        let ghost dest0 = m1.occ_at(fcv);
        let ghost ti = team_index(colour);
        let (fr, fcc) = fc;
        proof {
            Self::lemma_team_index_roundtrip(colour);
            assert(!m1.occ_at(sv).contains(id)) by {
                lemma_remove_props(pre.occ_at(sv), k0);
            }
            assert(!dest0.contains(id)) by {
                if sv == fcv {
                    lemma_remove_props(pre.occ_at(sv), k0);
                } else {
                    if dest0.contains(id) {
                        let kk = choose|kk: int| 0 <= kk < dest0.len() && dest0[kk] == id;
                        assert(pre.gpos(id) == fcv);
                    }
                }
            }
            assert(dest0.no_duplicates()) by {
                if sv == fcv {
                    lemma_remove_props(pre.occ_at(sv), k0);
                }
            }
            assert forall|kk: int| 0 <= kk < dest0.len() implies #[trigger] dest0[kk]
                < pre.ngotis() && pre.gpos(dest0[kk]) == fcv && pre.on_board(dest0[kk])
                && dest0[kk] != id by {
                if sv == fcv {
                    lemma_remove_props(pre.occ_at(sv), k0);
                    assert(pre.occ_at(sv).contains(dest0[kk]));
                    let jj = choose|jj: int|
                        0 <= jj < pre.occ_at(sv).len() && pre.occ_at(sv)[jj] == dest0[kk];
                    assert(pre.gpos(dest0[kk]) == sv);
                } else {
                    assert(pre.gpos(dest0[kk]) == fcv);
                    if dest0[kk] == id {
                        assert(sv == fcv);
                    }
                }
            }
        }
        let n = self.board[fr as usize][fcc as usize].gotis.len();
        let mut keep: Vec<usize> = Vec::new();
        let mut captured: Vec<usize> = Vec::new();
        let mut t: usize = 0;
        while t < n
            invariant
                *self == m1,
                t <= n,
                n == dest0.len(),
                dest0 == m1.occ_at(fcv),
                in_bounds(fcv),
                fr as int == fcv.0,
                fcc as int == fcv.1,
                self.board@.len() == 15,
                forall|rr: int| 0 <= rr < 15 ==> (#[trigger] self.board@[rr])@.len() == 15,
                forall|kk: int| 0 <= kk < dest0.len() ==> #[trigger] dest0[kk] < self.gotis@.len(),
                forall|x: usize| x < pre.ngotis() ==> #[trigger] m1.gcol(x) == pre.gcol(x),
                m1.ngotis() == pre.ngotis(),
                keep@ == dest0.take(t as int).filter(pre.col_pred(colour)),
                captured@ == dest0.take(t as int).filter(pre.notcol_pred(colour)),
                forall|tt: Rang|
                    tt != colour ==> #[trigger] captured@.filter(pre.col_pred(tt)) == dest0.take(
                        t as int,
                    ).filter(pre.col_pred(tt)),
            decreases n - t,
        {
            let x = self.board[fr as usize][fcc as usize].gotis[t];
            proof {
                assert(dest0[t as int] == x);
                assert(x < pre.ngotis());
                assert(dest0.take(t as int + 1) =~= dest0.take(t as int).push(x));
                dest0.take(t as int).lemma_filter_push(x, pre.col_pred(colour));
                dest0.take(t as int).lemma_filter_push(x, pre.notcol_pred(colour));
                assert(m1.gcol(x) == pre.gcol(x));
            }
            if self.gotis[x].colour == colour {
                keep.push(x);
                proof {
                    assert(pre.gcol(x) == colour);
                    assert forall|tt: Rang|
                        tt != colour implies #[trigger] captured@.filter(pre.col_pred(tt))
                        == dest0.take(t as int + 1).filter(pre.col_pred(tt)) by {
                        assert(captured@.filter(pre.col_pred(tt)) == dest0.take(t as int).filter(
                            pre.col_pred(tt),
                        ));
                        assert(dest0.take(t as int + 1) == dest0.take(t as int).push(x));
                        dest0.take(t as int).lemma_filter_push(x, pre.col_pred(tt));
                        assert(!pre.col_pred(tt)(x));
                        assert(dest0.take(t as int).push(x).filter(pre.col_pred(tt)) == dest0.take(
                            t as int,
                        ).filter(pre.col_pred(tt)));
                    }
                }
            } else {
                let ghost cap0 = captured@;
                captured.push(x);
                proof {
                    assert(pre.gcol(x) != colour);
                    assert(captured@ == cap0.push(x));
                    assert forall|tt: Rang|
                        tt != colour implies #[trigger] captured@.filter(pre.col_pred(tt))
                        == dest0.take(t as int + 1).filter(pre.col_pred(tt)) by {
                        assert(cap0.filter(pre.col_pred(tt)) == dest0.take(t as int).filter(
                            pre.col_pred(tt),
                        ));
                        assert(dest0.take(t as int + 1) == dest0.take(t as int).push(x));
                        cap0.lemma_filter_push(x, pre.col_pred(tt));
                        dest0.take(t as int).lemma_filter_push(x, pre.col_pred(tt));
                        assert(pre.col_pred(tt)(x) == (pre.gcol(x) == tt));
                        if pre.gcol(x) == tt {
                            assert(cap0.push(x).filter(pre.col_pred(tt)) == cap0.filter(
                                pre.col_pred(tt),
                            ).push(x));
                            assert(dest0.take(t as int).push(x).filter(pre.col_pred(tt))
                                == dest0.take(t as int).filter(pre.col_pred(tt)).push(x));
                        } else {
                            assert(cap0.push(x).filter(pre.col_pred(tt)) == cap0.filter(
                                pre.col_pred(tt),
                            ));
                            assert(dest0.take(t as int).push(x).filter(pre.col_pred(tt))
                                == dest0.take(t as int).filter(pre.col_pred(tt)));
                        }
                    }
                }
            }
            t += 1;
        }
        proof {
            assert(dest0.take(n as int) =~= dest0);
        }
        let ghost capturedv = captured@;
        keep.push(id);
        let ghost keepv = keep@;
        self.board[fr as usize][fcc as usize].gotis = keep;
        let ghost m2 = *self;
        proof {
            assert(keepv == dest0.filter(pre.col_pred(colour)).push(id));
            assert(capturedv == dest0.filter(pre.notcol_pred(colour)));
            assert(m2.occ_at(fcv) == keepv);
            assert forall|rr: int, cc: int|
                0 <= rr < 15 && 0 <= cc < 15 implies #[trigger] m2.kind_rc(rr, cc) == pre.kind_rc(
                rr,
                cc,
            ) by {
                assert(m2.kind_rc(rr, cc) == m1.kind_rc(rr, cc));
                assert(m1.kind_rc(rr, cc) == pre.kind_rc(rr, cc));
            }
            assert forall|rr: int, cc: int|
                0 <= rr < 15 && 0 <= cc < 15 && (rr, cc) != sv && (rr, cc) != fcv
                implies #[trigger] m2.occ_rc(rr, cc) == pre.occ_rc(rr, cc) by {
                assert(m2.occ_rc(rr, cc) == m1.occ_rc(rr, cc));
                assert(m1.occ_rc(rr, cc) == pre.occ_rc(rr, cc));
            }
            assert forall|x: usize| x < pre.ngotis() implies #[trigger] m2.gcol(x) == pre.gcol(x)
                by {
                assert(m1.gcol(x) == pre.gcol(x));
            }
            assert forall|x: usize|
                x < pre.ngotis() && x != id implies #[trigger] m2.gpos(x) == pre.gpos(x) by {
                assert(m1.gpos(x) == pre.gpos(x));
            }
            if sv != fcv {
                assert(m2.occ_at(sv) == m1.occ_at(sv));
            }
            Self::lemma_rebuild_dest_state(
                pre,
                m2,
                colour,
                sv,
                k0,
                fcv,
                id,
                dest0,
                keepv,
                capturedv,
            );
            assert(m2.lseq(colour) == pre.lseq(colour));
            assert(m2.mseq(colour) == pre.mseq(colour));
            assert forall|x: usize|
                x < pre.ngotis() && x != id && !capturedv.contains(x) implies #[trigger] m2.gpos(
                x,
            ) == pre.gpos(x) && m2.in_locked(x) == pre.in_locked(x) && m2.in_moving(x)
                == pre.in_moving(x) by {
                assert(m2.lseq(m2.gcol(x)) == pre.lseq(pre.gcol(x)));
                assert(m2.mseq(m2.gcol(x)) == pre.mseq(pre.gcol(x)));
            }
            assert(capturedv.take(0) =~= Seq::<usize>::empty());
            assert forall|tt: Rang|
                tt != colour implies (#[trigger] m2.lseq(tt)).len() == pre.lseq(tt).len()
                + capturedv.take(0).filter(pre.col_pred(tt)).len() && m2.mseq(tt).len()
                == pre.mseq(tt).len() - capturedv.take(0).filter(pre.col_pred(tt)).len() by {
                reveal(Seq::filter);
                assert(m2.locked_gotis@[team_index(tt)]@ == pre.locked_gotis@[team_index(tt)]@);
                assert(capturedv.take(0).filter(pre.col_pred(tt)).len() == 0);
            }
            assert(capturedv.skip(0) =~= capturedv);
            assert(m2.wf_except(capturedv.skip(0)));
        }
        let mut q: usize = 0;
        while q < captured.len()
            invariant
                q <= captured@.len(),
                captured@ == capturedv,
                in_bounds(fcv),
                in_bounds(sv),
                !is_any_pen(fcv),
                !is_any_pen(sv),
                0 <= k0 < pre.occ_at(sv).len(),
                id == pre.occ_at(sv)[k0],
                self.wf_except(capturedv.skip(q as int)),
                self.active_colours@ == pre.active_colours@,
                self.curr_colour == pre.curr_colour,
                self.gotis@.len() == pre.gotis@.len(),
                ti == team_index(colour),
                id < pre.ngotis(),
                pre.gcol(id) == colour,
                pre.wf(),
                capturedv.no_duplicates(),
                forall|x: usize| x < pre.ngotis() ==> #[trigger] self.gcol(x) == pre.gcol(x),
                self.lseq(colour) == pre.lseq(colour),
                self.mseq(colour) == pre.mseq(colour),
                self.gpos(id) == fcv,
                forall|x: usize|
                    x < pre.ngotis() && x != id && !capturedv.contains(x) ==> #[trigger] self.gpos(
                        x,
                    ) == pre.gpos(x) && self.in_locked(x) == pre.in_locked(x) && self.in_moving(
                        x,
                    ) == pre.in_moving(x),
                forall|j: int|
                    q <= j < capturedv.len() ==> (#[trigger] capturedv[j]) < pre.ngotis()
                        && self.gpos(capturedv[j]) == fcv && self.in_moving(capturedv[j])
                        && self.gcol(capturedv[j]) != colour,
                forall|j: int, rr: int, cc: int|
                    q <= j < capturedv.len() && 0 <= rr < 15 && 0 <= cc < 15 ==> !(
                    #[trigger] self.occ_rc(rr, cc).contains(capturedv[j])),
                forall|j: int|
                    0 <= j < q ==> self.in_locked(#[trigger] capturedv[j]) && is_pen_coord(
                        self.gcol(capturedv[j]),
                        self.gpos(capturedv[j]),
                    ),
                forall|tt: Rang|
                    tt != colour ==> (#[trigger] self.lseq(tt)).len() == pre.lseq(tt).len()
                        + capturedv.take(q as int).filter(pre.col_pred(tt)).len() && self.mseq(
                        tt,
                    ).len() == pre.mseq(tt).len() - capturedv.take(q as int).filter(
                        pre.col_pred(tt),
                    ).len(),
                forall|i: int|
                    0 <= i < 4 ==> #[trigger] self.num_finished@[i] == pre.num_finished@[i],
                forall|rr: int, cc: int|
                    0 <= rr < 15 && 0 <= cc < 15 && !pre.pen_of_captured(colour, fcv, (rr, cc))
                        && (rr, cc) != sv && (rr, cc) != fcv ==> #[trigger] self.occ_rc(rr, cc)
                        == pre.occ_rc(rr, cc),
                sv != fcv ==> self.occ_at(sv) == pre.occ_at(sv).remove(k0),
                self.occ_at(fcv) == keepv,
                keepv == dest0.filter(pre.col_pred(colour)).push(id),
                capturedv == dest0.filter(pre.notcol_pred(colour)),
                sv != fcv ==> dest0 == pre.occ_at(fcv),
                sv == fcv ==> dest0 == pre.occ_at(sv).remove(k0),
                forall|tt: Rang|
                    tt != colour ==> #[trigger] capturedv.filter(pre.col_pred(tt)) == dest0.filter(
                        pre.col_pred(tt),
                    ),
            decreases captured@.len() - q,
        {
            let cid = captured[q];
            proof {
                assert(capturedv[q as int] == cid);
                assert(cid < pre.ngotis() && self.gpos(cid) == fcv && self.in_moving(cid)
                    && self.gcol(cid) != colour);
            }
            let ccol = self.gotis[cid].colour;
            let ci = Self::team_idx(ccol);
            proof {
                Self::lemma_team_index_roundtrip(ccol);
                Self::lemma_team_index_roundtrip(colour);
                assert(ci != ti);
                assert(self.is_active(ccol)) by {
                    assert(self.mseq(ccol).contains(cid));
                    let kk = choose|kk: int|
                        0 <= kk < self.mseq(ccol).len() && self.mseq(ccol)[kk] == cid;
                }
            }
            let ghost e1 = *self;
            let pen_k = match self.find_empty_pen(ccol) {
                Some(k) => k,
                None => {
                    proof {
                        // all four pens occupied would force four
                        // distinct locked tokens, yet one of the four
                        // is still moving
                        let pens = pen_coords_spec(ccol);
                        assert forall|k: int| 0 <= k < 4 implies {
                            let p = #[trigger] pens[k];
                            e1.occ_at(p).len() != 0 && in_bounds(p) && e1.lseq(ccol).contains(
                                e1.occ_at(p)[0],
                            ) && e1.gpos(e1.occ_at(p)[0]) == p
                        } by {
                            let p = pens[k];
                            lemma_pen_coord_members(ccol, p);
                            assert(is_pen_coord(ccol, p)) by {
                                assert(pens.contains(pens[k]));
                            }
                            assert(in_bounds(p));
                            assert(e1.occ_at(p).len() != 0);
                            let x = e1.occ_at(p)[0];
                            assert(x < e1.ngotis() && e1.gpos(x) == p && e1.on_board(x));
                            if e1.in_moving(x) {
                                let kk = choose|kk: int|
                                    0 <= kk < e1.mseq(e1.gcol(x)).len() && e1.mseq(e1.gcol(x))[kk]
                                        == x;
                                assert(e1.moving_kind_ok(
                                    spec_kind(e1.active_colours@, e1.gpos(x)),
                                ));
                            }
                            assert(e1.in_locked(x));
                            let kk = choose|kk: int|
                                0 <= kk < e1.lseq(e1.gcol(x)).len() && e1.lseq(e1.gcol(x))[kk]
                                    == x;
                            assert(is_pen_coord(e1.gcol(x), p));
                            lemma_pen_owner_unique(e1.gcol(x), ccol, p);
                        }
                        let x0 = e1.occ_at(pens[0])[0];
                        let x1 = e1.occ_at(pens[1])[0];
                        let x2 = e1.occ_at(pens[2])[0];
                        let x3 = e1.occ_at(pens[3])[0];
                        assert(pens[0] != pens[1] && pens[0] != pens[2] && pens[0] != pens[3]
                            && pens[1] != pens[2] && pens[1] != pens[3] && pens[2] != pens[3]);
                        assert(x0 != x1 && x0 != x2 && x0 != x3 && x1 != x2 && x1 != x3 && x2
                            != x3);
                        let i0 = choose|i0: int|
                            0 <= i0 < e1.lseq(ccol).len() && e1.lseq(ccol)[i0] == x0;
                        let i1 = choose|i1: int|
                            0 <= i1 < e1.lseq(ccol).len() && e1.lseq(ccol)[i1] == x1;
                        let i2 = choose|i2: int|
                            0 <= i2 < e1.lseq(ccol).len() && e1.lseq(ccol)[i2] == x2;
                        let i3 = choose|i3: int|
                            0 <= i3 < e1.lseq(ccol).len() && e1.lseq(ccol)[i3] == x3;
                        assert(i0 != i1 && i0 != i2 && i0 != i3 && i1 != i2 && i1 != i3 && i2
                            != i3);
                        assert(e1.lseq(ccol).len() >= 4);
                        assert(e1.team_total(ci as int) == 4);
                        assert(e1.mseq(ccol).len() >= 1) by {
                            assert(e1.mseq(ccol).contains(cid));
                            let kk = choose|kk: int|
                                0 <= kk < e1.mseq(ccol).len() && e1.mseq(ccol)[kk] == cid;
                        }
                        assert(false);
                    }
                    0
                },
            };
            let pens_e = Rang::GetLockedPositions(ccol);
            let (ar, ac) = pens_e[pen_k];
            let ghost pv = cview((ar, ac));
            proof {
                assert(pv == pen_coords_spec(ccol)[pen_k as int]);
                lemma_pen_coord_members(ccol, pv);
                assert(is_pen_coord(ccol, pv)) by {
                    assert(pen_coords_spec(ccol).contains(pen_coords_spec(ccol)[pen_k as int]));
                }
                assert(in_bounds(pv));
                assert(e1.occ_at(pv).len() == 0);
                assert(pv != sv && pv != fcv);
            }
            let mut g2 = self.gotis[cid];
            g2.coords = (ar, ac);
            self.gotis[cid] = g2;
            self.board[ar as usize][ac as usize].gotis.push(cid);
            let mpos = match Self::position_of(&self.moving_gotis[ci], cid) {
                Some(p) => p,
                None => {
                    proof {
                        assert(e1.in_moving(cid));
                        assert(false);
                    }
                    0
                },
            };
            self.moving_gotis[ci].remove(mpos);
            self.locked_gotis[ci].push(cid);
            proof {
                let e2 = *self;
                lemma_remove_props(e1.mseq(ccol), mpos as int);
                assert(!e1.lseq(ccol).contains(cid)) by {
                    if e1.in_locked(cid) {
                    }
                }
                assert(e2.lseq(ccol) == e1.lseq(ccol).push(cid));
                assert(e2.mseq(ccol) == e1.mseq(ccol).remove(mpos as int));
                assert forall|i: int|
                    0 <= i < 4 && i != ci implies (#[trigger] e2.locked_gotis@[i])@
                    == e1.locked_gotis@[i]@ && e2.moving_gotis@[i]@ == e1.moving_gotis@[i]@ by {}
                assert forall|x: usize| x < pre.ngotis() implies #[trigger] e2.gcol(x) == e1.gcol(
                    x,
                ) && (x != cid ==> e2.gpos(x) == e1.gpos(x)) by {}
                assert(e2.gpos(cid) == pv);
                assert forall|rr: int, cc: int|
                    0 <= rr < 15 && 0 <= cc < 15 && (rr, cc) != pv implies #[trigger] e2.occ_rc(
                    rr,
                    cc,
                ) == e1.occ_rc(rr, cc) && e2.kind_rc(rr, cc) == e1.kind_rc(rr, cc) by {}
                assert(e2.occ_at(pv) == e1.occ_at(pv).push(cid));
                assert(e2.occ_at(pv) =~= seq![cid]);
                assert(e2.kind_rc(pv.0, pv.1) == e1.kind_rc(pv.0, pv.1));
                let exempt1 = capturedv.skip(q as int);
                let exempt2 = capturedv.skip(q as int + 1);
                assert(exempt1 =~= seq![cid] + exempt2);
                assert forall|x: usize| #[trigger] exempt2.contains(x) implies exempt1.contains(x)
                    && x != cid by {
                    let j = choose|j: int| 0 <= j < exempt2.len() && exempt2[j] == x;
                    assert(exempt1[j + 1] == x);
                    assert(capturedv[q as int + 1 + j] == x);
                    assert(capturedv[q as int] == cid);
                }
                assert forall|x: usize| #[trigger] exempt1.contains(x) implies x == cid
                    || exempt2.contains(x) by {
                    let j = choose|j: int| 0 <= j < exempt1.len() && exempt1[j] == x;
                    if j != 0 {
                        assert(exempt2[j - 1] == x);
                    }
                }
                assert(e2.wf_shape());
                assert(e2.wf_kinds()) by {
                    assert forall|rr: int, cc: int|
                        0 <= rr < 15 && 0 <= cc < 15 implies #[trigger] e2.kind_rc(rr, cc)
                        == spec_kind(e2.active_colours@, (rr, cc)) by {
                        assert(e1.kind_rc(rr, cc) == spec_kind(e1.active_colours@, (rr, cc)));
                    }
                }
                assert(e2.wf_locked_lists()) by {
                    assert forall|i: int, k: int|
                        0 <= i < 4 && 0 <= k < e2.locked_gotis@[i]@.len() implies {
                        let x = #[trigger] e2.locked_gotis@[i]@[k];
                        &&& x < e2.ngotis()
                        &&& team_index(e2.gcol(x)) == i
                        &&& e2.is_active(e2.gcol(x))
                        &&& is_pen_coord(e2.gcol(x), e2.gpos(x))
                    } by {
                        let x = e2.locked_gotis@[i]@[k];
                        if i == ci as int && k == e2.lseq(ccol).len() - 1 {
                            assert(x == cid);
                        } else {
                            assert(e1.locked_gotis@[i]@[k] == x);
                            assert(x != cid) by {
                                if i == ci as int {
                                    assert(e1.lseq(ccol)[k] == x);
                                    assert(!e1.lseq(ccol).contains(cid));
                                } else {
                                    assert(team_index(e1.gcol(x)) == i);
                                }
                            }
                        }
                    }
                }
                assert(e2.wf_moving_lists()) by {
                    assert forall|i: int, k: int|
                        0 <= i < 4 && 0 <= k < e2.moving_gotis@[i]@.len() implies {
                        let x = #[trigger] e2.moving_gotis@[i]@[k];
                        &&& x < e2.ngotis()
                        &&& team_index(e2.gcol(x)) == i
                        &&& e2.is_active(e2.gcol(x))
                        &&& in_bounds(e2.gpos(x))
                        &&& e2.moving_kind_ok(spec_kind(e2.active_colours@, e2.gpos(x)))
                    } by {
                        let x = e2.moving_gotis@[i]@[k];
                        assert(e1.moving_gotis@[i]@.contains(x)) by {
                            if i == ci as int {
                                assert(e1.mseq(ccol).remove(mpos as int).contains(x));
                            } else {
                                assert(e2.moving_gotis@[i]@ == e1.moving_gotis@[i]@);
                            }
                        }
                        let kk = choose|kk: int|
                            0 <= kk < e1.moving_gotis@[i]@.len() && e1.moving_gotis@[i]@[kk] == x;
                        assert(x != cid) by {
                            if i == ci as int {
                                assert(!e2.mseq(ccol).contains(cid));
                                assert(e2.moving_gotis@[i]@[k] == x);
                                assert(e2.mseq(ccol).contains(x));
                            } else {
                                assert(team_index(e1.gcol(x)) == i);
                            }
                        }
                    }
                }
                assert(e2.wf_list_nodup()) by {
                    assert forall|i: int| 0 <= i < 4 implies (#[trigger] e2.locked_gotis@[i])@
                        .no_duplicates() by {
                        if i == ci as int {
                            lemma_push_nodup(e1.lseq(ccol), cid);
                        } else {
                            assert(e2.locked_gotis@[i]@ == e1.locked_gotis@[i]@);
                            assert(e1.locked_gotis@[i]@.no_duplicates());
                        }
                    }
                    assert forall|i: int| 0 <= i < 4 implies (#[trigger] e2.moving_gotis@[i])@
                        .no_duplicates() by {
                        if i == ci as int {
                            assert(e1.mseq(ccol).no_duplicates());
                        } else {
                            assert(e2.moving_gotis@[i]@ == e1.moving_gotis@[i]@);
                            assert(e1.moving_gotis@[i]@.no_duplicates());
                        }
                    }
                    assert forall|i: int, x: usize| 0 <= i < 4 implies !((
                    #[trigger] e2.locked_gotis@[i]@.contains(x)) && e2.moving_gotis@[i]@.contains(
                        x,
                    )) by {
                        if e2.locked_gotis@[i]@.contains(x) && e2.moving_gotis@[i]@.contains(x) {
                            let ka = choose|ka: int|
                                0 <= ka < e2.locked_gotis@[i]@.len() && e2.locked_gotis@[i]@[ka]
                                    == x;
                            let kb = choose|kb: int|
                                0 <= kb < e2.moving_gotis@[i]@.len() && e2.moving_gotis@[i]@[kb]
                                    == x;
                            if x == cid {
                                assert(!e2.mseq(ccol).contains(cid));
                                assert(team_index(e2.gcol(x)) == i);
                            } else {
                                assert(e1.locked_gotis@[i]@.contains(x)) by {
                                    if i == ci as int {
                                        assert(e1.lseq(ccol).push(cid)[ka] == x);
                                        if ka == e1.lseq(ccol).len() {
                                            assert(x == cid);
                                        }
                                    }
                                }
                                assert(e1.moving_gotis@[i]@.contains(x)) by {
                                    if i == ci as int {
                                        assert(e1.mseq(ccol).remove(mpos as int).contains(x));
                                    }
                                }
                                assert(!(e1.locked_gotis@[i]@.contains(x) && e1.moving_gotis@[i]@
                                    .contains(x)));
                            }
                        }
                    }
                }
                assert(e2.wf_tokens()) by {
                    assert forall|x: usize| x < e2.ngotis() implies {
                        &&& e2.is_active(#[trigger] e2.gcol(x))
                        &&& (e2.on_board(x) || e2.gpos(x) == end_coord_spec(e2.gcol(x)))
                    } by {
                        assert(e1.is_active(e1.gcol(x)));
                        if x == cid {
                            assert(e2.lseq(ccol)[e2.lseq(ccol).len() - 1] == cid);
                            assert(e2.in_locked(cid));
                        } else {
                            assert(e1.on_board(x) || e1.gpos(x) == end_coord_spec(e1.gcol(x)));
                            if e1.in_locked(x) {
                                let tx = e1.gcol(x);
                                let kk = choose|kk: int|
                                    0 <= kk < e1.lseq(tx).len() && e1.lseq(tx)[kk] == x;
                                assert(e2.lseq(tx).contains(x)) by {
                                    if team_index(tx) == ci as int {
                                        assert(e2.lseq(ccol)[kk] == x);
                                    }
                                }
                            } else if e1.in_moving(x) {
                                let tx = e1.gcol(x);
                                assert(e2.mseq(tx).contains(x)) by {
                                    if team_index(tx) == ci as int {
                                        assert(e1.mseq(ccol).remove(mpos as int).contains(x));
                                    }
                                }
                            }
                        }
                    }
                }
                assert(e2.wf_cells()) by {
                    assert forall|rr: int, cc: int, k: int|
                        0 <= rr < 15 && 0 <= cc < 15 && 0 <= k < e2.occ_rc(rr, cc).len() implies {
                        let x = #[trigger] e2.occ_rc(rr, cc)[k];
                        &&& x < e2.ngotis()
                        &&& e2.gpos(x) == (rr, cc)
                        &&& e2.on_board(x)
                    } by {
                        let x = e2.occ_rc(rr, cc)[k];
                        if (rr, cc) == pv {
                            assert(x == cid);
                        } else {
                            assert(e1.occ_rc(rr, cc)[k] == x);
                            assert(x != cid) by {
                                assert(!e1.occ_rc(rr, cc).contains(cid));
                            }
                            assert(e1.gpos(x) == (rr, cc) && e1.on_board(x));
                            if e1.in_locked(x) {
                                let tx = e1.gcol(x);
                                let kk = choose|kk: int|
                                    0 <= kk < e1.lseq(tx).len() && e1.lseq(tx)[kk] == x;
                                assert(e2.lseq(tx).contains(x)) by {
                                    if team_index(tx) == ci as int {
                                        assert(e2.lseq(ccol)[kk] == x);
                                    }
                                }
                            } else {
                                let tx = e1.gcol(x);
                                assert(e2.mseq(tx).contains(x)) by {
                                    if team_index(tx) == ci as int {
                                        assert(e1.mseq(ccol).remove(mpos as int).contains(x));
                                    }
                                }
                            }
                        }
                    }
                    assert forall|rr: int, cc: int| 0 <= rr < 15 && 0 <= cc < 15 implies (
                    #[trigger] e2.occ_rc(rr, cc)).no_duplicates() by {
                        if (rr, cc) == pv {
                        } else {
                            assert(e2.occ_rc(rr, cc) == e1.occ_rc(rr, cc));
                            assert(e1.occ_rc(rr, cc).no_duplicates());
                        }
                    }
                }
                assert(e2.wf_placed_except(exempt2)) by {
                    assert forall|x: usize|
                        x < e2.ngotis() && #[trigger] e2.on_board(x) && !exempt2.contains(x)
                        implies in_bounds(e2.gpos(x)) && e2.occ_rc(e2.gpos(x).0, e2.gpos(x).1)
                        .contains(x) by {
                        if x == cid {
                            assert(e2.occ_at(pv)[0] == cid);
                        } else {
                            assert(e1.on_board(x)) by {
                                if e2.in_locked(x) {
                                    let tx = e2.gcol(x);
                                    let kk = choose|kk: int|
                                        0 <= kk < e2.lseq(tx).len() && e2.lseq(tx)[kk] == x;
                                    if team_index(tx) == ci as int {
                                        assert(e1.lseq(ccol).push(cid)[kk] == x);
                                        if kk == e1.lseq(ccol).len() {
                                            assert(x == cid);
                                        }
                                    }
                                } else {
                                    let tx = e2.gcol(x);
                                    let kk = choose|kk: int|
                                        0 <= kk < e2.mseq(tx).len() && e2.mseq(tx)[kk] == x;
                                    if team_index(tx) == ci as int {
                                        assert(e1.mseq(ccol).remove(mpos as int).contains(x));
                                    }
                                }
                            }
                            assert(!exempt1.contains(x));
                            assert(in_bounds(e1.gpos(x)) && e1.occ_rc(e1.gpos(x).0, e1.gpos(x).1)
                                .contains(x));
                            let p = e1.gpos(x);
                            let kk = choose|kk: int|
                                0 <= kk < e1.occ_at(p).len() && e1.occ_at(p)[kk] == x;
                            if p == pv {
                                assert(e1.occ_at(pv).len() == 0);
                            } else {
                                assert(e2.occ_rc(p.0, p.1)[kk] == x);
                            }
                        }
                    }
                }
                assert(e2.wf_counts()) by {
                    assert forall|i: int| 0 <= i < 4 implies #[trigger] e2.team_total(i) == (
                    if e2.is_active(colour_at(i)) {
                        4int
                    } else {
                        0int
                    }) by {
                        assert(e1.team_total(i) == (if e1.is_active(colour_at(i)) {
                            4int
                        } else {
                            0int
                        }));
                        if i != ci as int {
                            assert(e2.locked_gotis@[i]@ == e1.locked_gotis@[i]@);
                        }
                    }
                }
                assert(e2.wf_except(exempt2));
                assert(capturedv.take(q as int + 1) =~= capturedv.take(q as int).push(cid));
                assert forall|tt: Rang|
                    tt != colour implies (#[trigger] e2.lseq(tt)).len() == pre.lseq(tt).len()
                    + capturedv.take(q as int + 1).filter(pre.col_pred(tt)).len() && e2.mseq(
                    tt,
                ).len() == pre.mseq(tt).len() - capturedv.take(q as int + 1).filter(
                    pre.col_pred(tt),
                ).len() by {
                    capturedv.take(q as int).lemma_filter_push(cid, pre.col_pred(tt));
                    Self::lemma_team_index_roundtrip(tt);
                    assert(pre.gcol(cid) == ccol);
                    if tt != ccol {
                        assert(e2.lseq(tt) == e1.lseq(tt));
                        assert(e2.mseq(tt) == e1.mseq(tt));
                    }
                }
                assert forall|j: int, rr: int, cc: int|
                    q + 1 <= j < capturedv.len() && 0 <= rr < 15 && 0 <= cc < 15 implies !(
                #[trigger] e2.occ_rc(rr, cc).contains(capturedv[j])) by {
                    assert(capturedv[j] != cid);
                    if (rr, cc) == pv {
                        if e2.occ_at(pv).contains(capturedv[j]) {
                            let kk = choose|kk: int|
                                0 <= kk < e2.occ_at(pv).len() && e2.occ_at(pv)[kk] == capturedv[j];
                        }
                    } else {
                        assert(e2.occ_rc(rr, cc) == e1.occ_rc(rr, cc));
                        assert(!e1.occ_rc(rr, cc).contains(capturedv[j]));
                    }
                }
                assert forall|j: int|
                    0 <= j < q + 1 implies e2.in_locked(#[trigger] capturedv[j]) && is_pen_coord(
                    e2.gcol(capturedv[j]),
                    e2.gpos(capturedv[j]),
                ) by {
                    let x = capturedv[j];
                    if j == q as int {
                        assert(x == cid);
                        assert(e2.lseq(ccol)[e2.lseq(ccol).len() - 1] == cid);
                    } else {
                        assert(x != cid);
                        assert(e1.in_locked(x));
                        let tx = e1.gcol(x);
                        let kk = choose|kk: int|
                            0 <= kk < e1.lseq(tx).len() && e1.lseq(tx)[kk] == x;
                        assert(e2.lseq(tx).contains(x)) by {
                            if team_index(tx) == ci as int {
                                assert(e2.lseq(ccol)[kk] == x);
                            }
                        }
                    }
                }
                assert(e2.lseq(colour) == pre.lseq(colour) && e2.mseq(colour) == pre.mseq(colour))
                    by {
                    assert(ti != ci as int);
                }
                assert(capturedv.contains(cid)) by {
                    assert(capturedv[q as int] == cid);
                }
                Self::lemma_capture_step_keeps_others(
                    pre,
                    e1,
                    e2,
                    ccol,
                    ci as int,
                    cid,
                    id,
                    capturedv,
                    mpos as int,
                );
                // only pens of colours that lose a token are touched
                assert(pre.pen_of_captured(colour, fcv, pv)) by {
                    reveal(LudoEngine::pen_of_captured);
                    assert(is_pen_coord(ccol, pv));
                    assert(pre.gcol(cid) == ccol && ccol != colour);
                    assert(pre.occ_at(fcv).contains(cid)) by {
                        assert(dest0.contains(cid)) by {
                            assert(capturedv.contains(cid));
                            dest0.lemma_filter_contains_rev(pre.notcol_pred(colour), cid);
                        }
                        if sv == fcv {
                            lemma_remove_props(pre.occ_at(sv), k0);
                        }
                    }
                    let kk = choose|kk: int|
                        0 <= kk < pre.occ_at(fcv).len() && pre.occ_at(fcv)[kk] == cid;
                    pre.occ_at(fcv).lemma_filter_contains(pre.col_pred(ccol), kk);
                    assert(pre.occ_at(fcv).filter(pre.col_pred(ccol)).contains(
                        pre.occ_at(fcv)[kk],
                    ));
                    assert(pre.count_colour_at(fcv, ccol) > 0);
                }
                assert forall|i: int| 0 <= i < 4 implies #[trigger] e2.num_finished@[i]
                    == pre.num_finished@[i] by {
                    assert(e1.num_finished@[i] == pre.num_finished@[i]);
                }
                assert forall|j: int|
                    q + 1 <= j < capturedv.len() implies (#[trigger] capturedv[j]) < pre.ngotis()
                    && e2.gpos(capturedv[j]) == fcv && e2.in_moving(capturedv[j]) && e2.gcol(
                    capturedv[j],
                ) != colour by {
                    let x = capturedv[j];
                    assert(x != cid);
                    assert(e1.gpos(x) == fcv && e1.in_moving(x) && e1.gcol(x) != colour);
                    let tx = e1.gcol(x);
                    assert(e2.mseq(tx).contains(x)) by {
                        if team_index(tx) == ci as int {
                            assert(e1.mseq(ccol).remove(mpos as int).contains(x));
                        }
                    }
                }
            }
            q += 1;
        }
        proof {
            let post = *self;
            assert(capturedv.skip(capturedv.len() as int) =~= Seq::<usize>::empty());
            assert(post.wf_except(Seq::empty()));
            assert(capturedv.take(capturedv.len() as int) =~= capturedv);
            assert(Self::move_counts_ok(pre, post, colour, sv, fcv)) by {
                assert(fcv != start_coord_spec(colour) && fcv != end_coord_spec(colour));
                assert(post.lseq(colour).len() == pre.lseq(colour).len());
                assert(post.mseq(colour).len() == pre.mseq(colour).len());
                assert(post.fin(colour) == pre.fin(colour)) by {
                    Self::lemma_team_index_roundtrip(colour);
                    assert(post.num_finished@[team_index(colour)] == pre.num_finished@[team_index(
                        colour,
                    )]);
                }
                assert forall|t: Rang| t != colour implies #[trigger] post.fin(t) == pre.fin(t)
                    by {
                    Self::lemma_team_index_roundtrip(t);
                    assert(post.num_finished@[team_index(t)] == pre.num_finished@[team_index(t)]);
                }
                assert forall|t: Rang|
                    t != colour implies Self::other_counts_ok(pre, post, colour, sv, fcv, t) by {
                    assert(self.lseq(t).len() == pre.lseq(t).len() + capturedv.take(
                        q as int,
                    ).filter(pre.col_pred(t)).len() && self.mseq(t).len() == pre.mseq(t).len()
                        - capturedv.take(q as int).filter(pre.col_pred(t)).len());
                    assert(q == capturedv.len());
                    assert((#[trigger] post.lseq(t)).len() == pre.lseq(t).len()
                        + capturedv.take(capturedv.len() as int).filter(pre.col_pred(t)).len()
                        && post.mseq(t).len() == pre.mseq(t).len() - capturedv.take(
                        capturedv.len() as int,
                    ).filter(pre.col_pred(t)).len());
                    assert(capturedv.filter(pre.col_pred(t)) == dest0.filter(pre.col_pred(t)));
                    assert(post.fin(t) == pre.fin(t)) by {
                        Self::lemma_team_index_roundtrip(t);
                        assert(post.num_finished@[team_index(t)] == pre.num_finished@[team_index(
                            t,
                        )]);
                    }
                    if sv != fcv {
                        assert(dest0 == pre.occ_at(fcv));
                        assert(pre.count_colour_at(fcv, t) == capturedv.filter(
                            pre.col_pred(t),
                        ).len());
                    }
                }
                assert(Rang::Red != colour ==> Self::other_counts_ok(
                    pre,
                    post,
                    colour,
                    sv,
                    fcv,
                    Rang::Red,
                ));
                assert(Rang::Green != colour ==> Self::other_counts_ok(
                    pre,
                    post,
                    colour,
                    sv,
                    fcv,
                    Rang::Green,
                ));
                assert(Rang::Yellow != colour ==> Self::other_counts_ok(
                    pre,
                    post,
                    colour,
                    sv,
                    fcv,
                    Rang::Yellow,
                ));
                assert(Rang::Blue != colour ==> Self::other_counts_ok(
                    pre,
                    post,
                    colour,
                    sv,
                    fcv,
                    Rang::Blue,
                ));
            }
            assert(Self::move_cells_ok(pre, post, colour, sv, k0, fcv)) by {
                assert(post.gpos(id) == fcv);
                assert(post.in_moving(id) && !post.in_locked(id)) by {
                    assert(pre.mseq(colour).contains(id));
                    assert(post.mseq(colour) == pre.mseq(colour));
                    assert(post.lseq(colour) == pre.lseq(colour));
                    if pre.in_locked(id) {
                    }
                }
                assert(fcv != end_coord_spec(colour));
                assert forall|k: int|
                    0 <= k < pre.occ_at(fcv).len() && pre.gcol(#[trigger] pre.occ_at(fcv)[k])
                        != colour implies post.in_locked(pre.occ_at(fcv)[k]) && is_pen_coord(
                    pre.gcol(pre.occ_at(fcv)[k]),
                    post.gpos(pre.occ_at(fcv)[k]),
                ) by {
                    let x = pre.occ_at(fcv)[k];
                    assert(x != id);
                    assert(dest0.contains(x)) by {
                        if sv == fcv {
                            lemma_remove_props(pre.occ_at(sv), k0);
                        } else {
                            assert(dest0[k] == x);
                        }
                    }
                    let kk = choose|kk: int| 0 <= kk < dest0.len() && dest0[kk] == x;
                    dest0.lemma_filter_contains(pre.notcol_pred(colour), kk);
                    assert(capturedv.contains(x));
                    let j = choose|j: int| 0 <= j < capturedv.len() && capturedv[j] == x;
                    assert(post.in_locked(capturedv[j]) && is_pen_coord(
                        post.gcol(capturedv[j]),
                        post.gpos(capturedv[j]),
                    ));
                }
                assert forall|pr2: int, pc2: int|
                    0 <= pr2 < 15 && 0 <= pc2 < 15 && (pr2, pc2) != sv && (pr2, pc2) != fcv && !(
                    pre.attack_happens(colour, fcv) && pre.pen_of_captured(
                        colour,
                        fcv,
                        (pr2, pc2),
                    )) implies #[trigger] post.occ_rc(pr2, pc2) == pre.occ_rc(pr2, pc2) by {}
                if sv == fcv {
                    assert(post.occ_at(fcv) == pre.occ_at(fcv).remove(k0).filter(
                        pre.col_pred(colour),
                    ).push(id));
                }
                assert forall|x: usize|
                    x < pre.ngotis() && x != id && !(pre.attack_happens(colour, fcv)
                        && pre.occ_at(fcv).contains(x) && pre.gcol(x) != colour)
                    implies #[trigger] post.gpos(x) == pre.gpos(x) && post.in_locked(x)
                    == pre.in_locked(x) && post.in_moving(x) == pre.in_moving(x) by {
                    assert(!capturedv.contains(x)) by {
                        if capturedv.contains(x) {
                            assert(dest0.contains(x) && pre.gcol(x) != colour);
                            assert(pre.occ_at(fcv).contains(x)) by {
                                if sv == fcv {
                                    lemma_remove_props(pre.occ_at(sv), k0);
                                }
                            }
                        }
                    }
                }
            }
        }
    }

    /// First pen square of `ccol` with no occupant.
    fn find_empty_pen(&self, ccol: Rang) -> (r: Option<usize>)
        requires
            self.board@.len() == 15,
            forall|rr: int| 0 <= rr < 15 ==> (#[trigger] self.board@[rr])@.len() == 15,
        ensures
            r matches Some(k) ==> 0 <= k < 4 && self.occ_at(pen_coords_spec(ccol)[k as int]).len()
                == 0,
            r is None ==> forall|k: int|
                0 <= k < 4 ==> self.occ_at(#[trigger] pen_coords_spec(ccol)[k]).len() != 0,
    {
        let pens = Rang::GetLockedPositions(ccol);
        let mut k: usize = 0;
        while k < 4
            invariant
                k <= 4,
                self.board@.len() == 15,
                forall|rr: int| 0 <= rr < 15 ==> (#[trigger] self.board@[rr])@.len() == 15,
                forall|kk: int| 0 <= kk < 4 ==> cview(pens@[kk]) == pen_coords_spec(ccol)[kk],
                forall|kk: int|
                    0 <= kk < k ==> self.occ_at(#[trigger] pen_coords_spec(ccol)[kk]).len() != 0,
            decreases 4 - k,
        {
            let (ar, ac) = pens[k];
            proof {
                lemma_pen_coord_members(ccol, cview(pens@[k as int]));
                assert(is_pen_coord(ccol, cview(pens@[k as int]))) by {
                    assert(pen_coords_spec(ccol).contains(pen_coords_spec(ccol)[k as int]));
                }
                assert(in_bounds(cview(pens@[k as int])));
            }
            if self.board[ar as usize][ac as usize].gotis.is_empty() {
                return Some(k);
            }
            k += 1;
        }
        None
    }

    /// The single mutating operation: move the first token of `colour`
    /// standing on `start_coords` by `dist` steps. All board mutation
    /// funnels through here. On any error the board is untouched. On
    /// success the move is applied atomically: the token's coordinate,
    /// the two occupant lists, the per-colour bookkeeping, and, on a
    /// capture, the re-penning of every token of another colour on the
    /// landing square.
    #[verifier::rlimit(100)]
    pub fn move_goti(&mut self, colour: Rang, start_coords: (u8, u8), dist: u8) -> (res: Result<
        MoveResult,
        MoveError,
    >)
        requires
            old(self).wf(),
            old(self).valid_start(colour, start_coords),
            1 <= dist <= 6,
            old(self).mp(colour, start_coords, dist) == Some(start_coord_spec(colour))
                ==> is_pen_coord(colour, cview(start_coords)) || !old(self).has_colour_at(
                    cview(start_coords),
                    colour,
                ),
        ensures
            final(self).active_colours@ == old(self).active_colours@,
            final(self).curr_colour == old(self).curr_colour,
            (res matches Err(e) && e == MoveError::IllegalMove) <==> (old(self).mp(
                colour,
                start_coords,
                dist,
            ) is None),
            (res matches Err(e) && e == MoveError::TokenNotFound) <==> (old(self).mp(
                colour,
                start_coords,
                dist,
            ) is Some && !old(self).has_colour_at(cview(start_coords), colour)),
            res is Err ==> final(self).same_state(*old(self)),
            res is Ok ==> final(self).wf(),
            res matches Ok(m) ==> forall|fc: (int, int), k0: int|
                old(self).mp(colour, start_coords, dist) == Some(fc) && old(self).is_first_of_colour(
                    cview(start_coords),
                    colour,
                    k0,
                ) ==> Self::move_outcome_ok(*old(self), colour, fc, m) && Self::move_counts_ok(
                    *old(self),
                    *final(self),
                    colour,
                    cview(start_coords),
                    fc,
                ) && #[trigger] Self::move_cells_ok(
                    *old(self),
                    *final(self),
                    colour,
                    cview(start_coords),
                    k0,
                    fc,
                ),
    {
        let ghost pre = *self;
        let ghost sv = cview(start_coords);
        let fc_opt = self.is_move_possible(colour, start_coords, dist);
        let fc = match fc_opt {
            Some(f) => f,
            None => {
                return Err(MoveError::IllegalMove);
            },
        };
        let ghost fcv = cview(fc);
        let (sr, sc) = start_coords;
        let (fr, fcc) = fc;
        proof {
            assert(in_bounds(sv) && in_bounds(fcv));
            assert forall|k: int|
                0 <= k < self.board@[sr as int]@[sc as int].gotis@.len() implies #[trigger] self
                .board@[sr as int]@[sc as int].gotis@[k] < self.gotis@.len() by {
                assert(self.occ_rc(sv.0, sv.1)[k] < self.ngotis());
            }
        }
        let cell_idx = match Self::first_of_colour(
            &self.board[sr as usize][sc as usize].gotis,
            &self.gotis,
            colour,
        ) {
            Some(k) => k,
            None => {
                proof {
                    assert(!pre.has_colour_at(sv, colour));
                }
                return Err(MoveError::TokenNotFound);
            },
        };
        let id = self.board[sr as usize][sc as usize].gotis[cell_idx];
        proof {
            assert forall|k: int|
                0 <= k < self.board@[fr as int]@[fcc as int].gotis@.len() implies #[trigger] self
                .board@[fr as int]@[fcc as int].gotis@[k] < self.gotis@.len() by {
                assert(self.occ_rc(fcv.0, fcv.1)[k] < self.ngotis());
            }
        }
        let was_attack = if self.board[fr as usize][fcc as usize].cell_type
            == LudoCellType::SafeSpot {
            false
        } else {
            Self::has_enemy(&self.board[fr as usize][fcc as usize].gotis, &self.gotis, colour)
        };
        let finished = {
            let e = Rang::GetEndCoord(colour);
            fr == e.0 && fcc == e.1
        };
        let unlocked = {
            let st = Rang::GetStartCoord(colour);
            fr == st.0 && fcc == st.1
        };
        let ghost k0 = cell_idx as int;
        proof {
            lemma_start_end_kinds(pre.active_colours@, colour);
            assert(pre.is_first_of_colour(sv, colour, k0));
            assert(pre.has_colour_at(sv, colour));
            assert(id == pre.occ_at(sv)[k0]);
            assert(id < pre.ngotis() && pre.gcol(id) == colour && pre.gpos(id) == sv
                && pre.on_board(id));
            assert(pre.kind_rc(fcv.0, fcv.1) == spec_kind(pre.active_colours@, fcv));
            assert(pre.kind_rc(sv.0, sv.1) == spec_kind(pre.active_colours@, sv));
            assert(was_attack == pre.attack_happens(colour, fcv));
            assert(unlocked == (fcv == start_coord_spec(colour)));
            assert(finished == (fcv == end_coord_spec(colour)));
            // a move that is no unlock starts off the pens, by a moving token
            if !unlocked {
                assert(!is_pen_coord(colour, sv)) by {
                    if is_pen_coord(colour, sv) {
                        assert(pre.mp(colour, start_coords, dist) == Some(
                            start_coord_spec(colour),
                        ));
                        assert(pre.has_colour_at(sv, colour));
                    }
                }
                assert(has_next(sv));
                lemma_path_dest_on_track(pre.active_colours@, colour, sv, dist as nat);
                assert(!is_any_pen(fcv) && has_next(fcv));
                assert(pre.in_moving(id)) by {
                    if pre.in_locked(id) {
                        assert(is_pen_coord(colour, sv));
                    }
                }
                assert(!is_any_pen(sv)) by {
                    assert(pre.moving_kind_ok(spec_kind(pre.active_colours@, sv)));
                }
            } else {
                assert(is_pen_coord(colour, sv)) by {
                    assert(pre.has_colour_at(sv, colour));
                }
                assert(spec_kind(pre.active_colours@, fcv) == LudoCellType::SafeSpot);
                assert(!was_attack);
                assert(!finished);
                assert(pre.in_locked(id)) by {
                    if pre.in_moving(id) {
                        assert(pre.moving_kind_ok(spec_kind(pre.active_colours@, sv)));
                        assert(spec_kind(pre.active_colours@, sv) == LudoCellType::LockedPosition(
                            colour,
                        ));
                    }
                }
                assert(sv != fcv) by {
                    assert(spec_kind(pre.active_colours@, sv) == LudoCellType::LockedPosition(
                        colour,
                    ));
                }
            }
            if finished {
                // the end square is unusable, so nothing stands there
                assert(pre.occ_at(fcv).len() == 0) by {
                    if pre.occ_at(fcv).len() > 0 {
                        let x = pre.occ_at(fcv)[0];
                        assert(x < pre.ngotis() && pre.gpos(x) == fcv && pre.on_board(x));
                        if pre.in_locked(x) {
                            assert(is_pen_coord(pre.gcol(x), fcv));
                        } else {
                            assert(pre.moving_kind_ok(spec_kind(pre.active_colours@, fcv)));
                        }
                    }
                }
                assert(!was_attack);
                assert(sv != fcv) by {
                    assert(pre.occ_at(sv).len() > 0);
                }
            }
        }
        let mut g = self.gotis[id];
        g.coords = fc;
        self.gotis[id] = g;
        let _removed = self.board[sr as usize][sc as usize].gotis.remove(cell_idx);
        let ghost m1 = *self;
        proof {
            lemma_remove_props(pre.occ_at(sv), k0);
            assert(m1.occ_at(sv) == pre.occ_at(sv).remove(k0));
            assert(m1.gotis@ == pre.gotis@.update(id as int, g));
            assert forall|x: usize| x < pre.ngotis() implies #[trigger] m1.gcol(x) == pre.gcol(x)
                && (x != id ==> m1.gpos(x) == pre.gpos(x)) by {}
            assert(m1.gpos(id) == fcv);
            assert forall|pr2: int, pc2: int|
                0 <= pr2 < 15 && 0 <= pc2 < 15 && (pr2, pc2) != sv implies #[trigger] m1.occ_rc(
                pr2,
                pc2,
            ) == pre.occ_rc(pr2, pc2) && m1.kind_rc(pr2, pc2) == pre.kind_rc(pr2, pc2) by {}
            assert(m1.kind_rc(sv.0, sv.1) == pre.kind_rc(sv.0, sv.1));
            assert(!m1.occ_at(sv).contains(id));
        }
        if unlocked {
            let i = Self::team_idx(colour);
            self.board[fr as usize][fcc as usize].gotis.push(id);
            let lpos = match Self::position_of(&self.locked_gotis[i], id) {
                Some(p) => p,
                None => {
                    proof {
                        assert(pre.in_locked(id));
                        assert(false);
                    }
                    0
                },
            };
            self.locked_gotis[i].remove(lpos);
            self.moving_gotis[i].push(id);
            proof {
                Self::lemma_team_index_roundtrip(colour);
                let post = *self;
                assert forall|rr: int, cc: int| 0 <= rr < 15 && 0 <= cc < 15 implies #[trigger] post
                    .kind_rc(rr, cc) == pre.kind_rc(rr, cc) by {
                    assert(m1.kind_rc(rr, cc) == pre.kind_rc(rr, cc));
                    assert(post.kind_rc(rr, cc) == m1.kind_rc(rr, cc));
                }
                assert forall|rr: int, cc: int|
                    0 <= rr < 15 && 0 <= cc < 15 && (rr, cc) != sv && (rr, cc) != fcv
                    implies #[trigger] post.occ_rc(rr, cc) == pre.occ_rc(rr, cc) by {
                    assert(m1.occ_rc(rr, cc) == pre.occ_rc(rr, cc));
                    assert(post.occ_rc(rr, cc) == m1.occ_rc(rr, cc));
                }
                assert(post.occ_at(sv) == pre.occ_at(sv).remove(k0)) by {
                    assert(post.occ_rc(sv.0, sv.1) == m1.occ_rc(sv.0, sv.1));
                }
                assert(post.occ_at(fcv) == pre.occ_at(fcv).push(id)) by {
                    assert(m1.occ_at(fcv) == pre.occ_at(fcv));
                }
                assert forall|x: usize| x < pre.ngotis() implies #[trigger] post.gcol(x)
                    == pre.gcol(x) by {
                    assert(m1.gcol(x) == pre.gcol(x));
                }
                assert forall|x: usize| x < pre.ngotis() && x != id implies #[trigger] post.gpos(x)
                    == pre.gpos(x) by {
                    assert(m1.gpos(x) == pre.gpos(x));
                }
                assert(post.lseq(colour) == pre.lseq(colour).remove(lpos as int));
                assert(post.mseq(colour) == pre.mseq(colour).push(id));
                Self::lemma_move_apply_wf(
                    pre,
                    post,
                    colour,
                    sv,
                    k0,
                    fcv,
                    id,
                    true,
                    false,
                    lpos as int,
                );
                assert(Self::move_outcome_ok(pre, colour, fcv, MoveResult::Unlocked));
                Self::lemma_contract_wrap(
                    pre,
                    post,
                    colour,
                    start_coords,
                    dist,
                    k0,
                    fcv,
                    MoveResult::Unlocked,
                );
            }
            Ok(MoveResult::Unlocked)
        } else if finished {
            let i = Self::team_idx(colour);
            let mpos = match Self::position_of(&self.moving_gotis[i], id) {
                Some(p) => p,
                None => {
                    proof {
                        Self::lemma_team_index_roundtrip(colour);
                        assert(pre.in_moving(id));
                        assert(false);
                    }
                    0
                },
            };
            self.moving_gotis[i].remove(mpos);
            proof {
                Self::lemma_team_index_roundtrip(colour);
                assert(self.team_total(i as int) == pre.team_total(i as int) - 1) by {
                    assert(pre.is_active(colour_at(i as int)));
                }
                assert(self.num_finished@[i as int] < 4);
            }
            let nf = self.num_finished[i];
            self.num_finished[i] = nf + 1;
            proof {
                let post = *self;
                assert forall|rr: int, cc: int| 0 <= rr < 15 && 0 <= cc < 15 implies #[trigger] post
                    .kind_rc(rr, cc) == pre.kind_rc(rr, cc) by {
                    assert(m1.kind_rc(rr, cc) == pre.kind_rc(rr, cc));
                    assert(post.kind_rc(rr, cc) == m1.kind_rc(rr, cc));
                }
                assert forall|rr: int, cc: int|
                    0 <= rr < 15 && 0 <= cc < 15 && (rr, cc) != sv && (rr, cc) != fcv
                    implies #[trigger] post.occ_rc(rr, cc) == pre.occ_rc(rr, cc) by {
                    assert(m1.occ_rc(rr, cc) == pre.occ_rc(rr, cc));
                    assert(post.occ_rc(rr, cc) == m1.occ_rc(rr, cc));
                }
                assert(post.occ_at(sv) == pre.occ_at(sv).remove(k0)) by {
                    assert(post.occ_rc(sv.0, sv.1) == m1.occ_rc(sv.0, sv.1));
                }
                assert(post.occ_at(fcv) == pre.occ_at(fcv)) by {
                    assert(m1.occ_at(fcv) == pre.occ_at(fcv));
                    assert(post.occ_rc(fcv.0, fcv.1) == m1.occ_rc(fcv.0, fcv.1));
                }
                assert forall|x: usize| x < pre.ngotis() implies #[trigger] post.gcol(x)
                    == pre.gcol(x) by {
                    assert(m1.gcol(x) == pre.gcol(x));
                }
                assert forall|x: usize| x < pre.ngotis() && x != id implies #[trigger] post.gpos(x)
                    == pre.gpos(x) by {
                    assert(m1.gpos(x) == pre.gpos(x));
                }
                assert(post.mseq(colour) == pre.mseq(colour).remove(mpos as int));
                assert(post.lseq(colour) == pre.lseq(colour));
                assert(post.fin(colour) == pre.fin(colour) + 1);
                Self::lemma_move_apply_wf(
                    pre,
                    post,
                    colour,
                    sv,
                    k0,
                    fcv,
                    id,
                    false,
                    true,
                    mpos as int,
                );
                assert(Self::move_outcome_ok(pre, colour, fcv, MoveResult::Finished));
                Self::lemma_contract_wrap(
                    pre,
                    post,
                    colour,
                    start_coords,
                    dist,
                    k0,
                    fcv,
                    MoveResult::Finished,
                );
            }
            Ok(MoveResult::Finished)
        } else if !was_attack {
            proof {
                lemma_path_dest_on_track(pre.active_colours@, colour, sv, dist as nat);
                assert(landing_ok(pre.active_colours@, colour, fcv));
                assert(pre.moving_kind_ok(spec_kind(pre.active_colours@, fcv)));
            }
            self.board[fr as usize][fcc as usize].gotis.push(id);
            proof {
                let post = *self;
                assert forall|rr: int, cc: int| 0 <= rr < 15 && 0 <= cc < 15 implies #[trigger] post
                    .kind_rc(rr, cc) == pre.kind_rc(rr, cc) by {
                    assert(m1.kind_rc(rr, cc) == pre.kind_rc(rr, cc));
                    assert(post.kind_rc(rr, cc) == m1.kind_rc(rr, cc));
                }
                assert forall|rr: int, cc: int|
                    0 <= rr < 15 && 0 <= cc < 15 && (rr, cc) != sv && (rr, cc) != fcv
                    implies #[trigger] post.occ_rc(rr, cc) == pre.occ_rc(rr, cc) by {
                    assert(m1.occ_rc(rr, cc) == pre.occ_rc(rr, cc));
                    assert(post.occ_rc(rr, cc) == m1.occ_rc(rr, cc));
                }
                if sv != fcv {
                    assert(post.occ_at(sv) == pre.occ_at(sv).remove(k0)) by {
                        assert(post.occ_rc(sv.0, sv.1) == m1.occ_rc(sv.0, sv.1));
                    }
                    assert(post.occ_at(fcv) == pre.occ_at(fcv).push(id)) by {
                        assert(m1.occ_at(fcv) == pre.occ_at(fcv));
                    }
                } else {
                    assert(post.occ_at(sv) == pre.occ_at(sv).remove(k0).push(id));
                }
                assert forall|x: usize| x < pre.ngotis() implies #[trigger] post.gcol(x)
                    == pre.gcol(x) by {
                    assert(m1.gcol(x) == pre.gcol(x));
                }
                assert forall|x: usize| x < pre.ngotis() && x != id implies #[trigger] post.gpos(x)
                    == pre.gpos(x) by {
                    assert(m1.gpos(x) == pre.gpos(x));
                }
                Self::lemma_move_apply_wf(pre, post, colour, sv, k0, fcv, id, false, false, 0);
                assert(Self::move_outcome_ok(pre, colour, fcv, MoveResult::NormalMove(fc)));
                Self::lemma_contract_wrap(
                    pre,
                    post,
                    colour,
                    start_coords,
                    dist,
                    k0,
                    fcv,
                    MoveResult::NormalMove(fc),
                );
            }
            Ok(MoveResult::NormalMove(fc))
        } else {
            proof {
                lemma_path_dest_on_track(pre.active_colours@, colour, sv, dist as nat);
                assert(landing_ok(pre.active_colours@, colour, fcv));
                assert(pre.moving_kind_ok(spec_kind(pre.active_colours@, fcv)));
            }
            self.capture_and_land(colour, start_coords, dist, fc, id, Ghost(pre), Ghost(k0));
            proof {
                let post = *self;
                assert(Self::move_outcome_ok(pre, colour, fcv, MoveResult::Attacked(fc)));
                Self::lemma_contract_wrap(
                    pre,
                    post,
                    colour,
                    start_coords,
                    dist,
                    k0,
                    fcv,
                    MoveResult::Attacked(fc),
                );
            }
            Ok(MoveResult::Attacked(fc))
        }
    }

    /// Releases the first penned token of `colour`, in the fixed pen
    /// order, onto the colour's start square: the effect of a move of 6
    /// from its pen. Fails exactly when `colour` has no penned token,
    /// and then leaves the board untouched.
    pub fn unlock_goti(&mut self, colour: Rang) -> (res: Result<(), ()>)
        requires
            old(self).wf(),
        ensures
            final(self).wf(),
            (res is Ok) == (old(self).lseq(colour).len() > 0),
            res is Err ==> final(self).same_state(*old(self)),
            res is Ok ==> final(self).lseq(colour).len() == old(self).lseq(colour).len() - 1
                && final(self).mseq(colour).len() == old(self).mseq(colour).len() + 1
                && final(self).fin(colour) == old(self).fin(colour),
            res is Ok ==> final(self).occ_at(start_coord_spec(colour)).len() == old(self).occ_at(
                start_coord_spec(colour),
            ).len() + 1,
            // the token comes from the first occupied pen square, in
            // the fixed pen order; that square loses it, the start
            // square gains it, and it is now moving
            res is Ok ==> exists|k: int|
                {
                    let pen = #[trigger] pen_coords_spec(colour)[k];
                    let id = old(self).occ_at(pen)[0];
                    &&& 0 <= k < 4
                    &&& (forall|j: int|
                        0 <= j < k ==> old(self).occ_at(#[trigger] pen_coords_spec(colour)[j]).len()
                            == 0)
                    &&& old(self).occ_at(pen).len() > 0
                    &&& final(self).occ_at(pen) == old(self).occ_at(pen).remove(0)
                    &&& final(self).gpos(id) == start_coord_spec(colour)
                    &&& final(self).in_moving(id)
                    &&& !final(self).in_locked(id)
                    &&& final(self).occ_at(start_coord_spec(colour)) == old(self).occ_at(
                        start_coord_spec(colour),
                    ).push(id)
                },
            forall|t: Rang|
                t != colour ==> (#[trigger] final(self).lseq(t)).len() == old(self).lseq(t).len()
                    && final(self).mseq(t).len() == old(self).mseq(t).len() && final(self).fin(t)
                    == old(self).fin(t),
            final(self).active_colours@ == old(self).active_colours@,
            final(self).curr_colour == old(self).curr_colour,
            final(self).ngotis() == old(self).ngotis(),
    {
        let ghost pre = *self;
        let pens = Rang::GetLockedPositions(colour);
        let mut sel: usize = 4;
        let mut k: usize = 0;
        while k < 4
            invariant
                self.wf(),
                *self == pre,
                k <= 4,
                sel <= 4,
                forall|kk: int| 0 <= kk < 4 ==> cview(pens@[kk]) == pen_coords_spec(colour)[kk],
                sel == 4 ==> forall|kk: int|
                    0 <= kk < k ==> self.occ_at(#[trigger] pen_coords_spec(colour)[kk]).len()
                        == 0,
                sel < 4 ==> self.occ_at(pen_coords_spec(colour)[sel as int]).len() > 0
                    && forall|j: int|
                    0 <= j < sel ==> self.occ_at(#[trigger] pen_coords_spec(colour)[j]).len()
                        == 0,
            decreases 4 - k,
        {
            let (ar, ac) = pens[k];
            proof {
                lemma_pen_coord_members(colour, cview(pens@[k as int]));
                assert(is_pen_coord(colour, cview(pens@[k as int]))) by {
                    assert(pen_coords_spec(colour).contains(pen_coords_spec(colour)[k as int]));
                }
                assert(in_bounds(cview(pens@[k as int])));
            }
            if sel == 4 && !self.board[ar as usize][ac as usize].gotis.is_empty() {
                sel = k;
            }
            k += 1;
        }
        if sel == 4 {
            proof {
                // no occupied pen square means no locked token
                if pre.lseq(colour).len() > 0 {
                    let x = pre.lseq(colour)[0];
                    assert(pre.in_locked(x)) by {
                        assert(pre.lseq(colour).contains(x));
                        Self::lemma_team_index_roundtrip(colour);
                        assert(pre.gcol(x) == colour);
                    }
                    assert(is_pen_coord(colour, pre.gpos(x)) && pre.occ_at(pre.gpos(x)).contains(
                        x,
                    ));
                    lemma_pen_coord_members(colour, pre.gpos(x));
                    let kk = choose|kk: int|
                        0 <= kk < pen_coords_spec(colour).len() && pen_coords_spec(colour)[kk]
                            == pre.gpos(x);
                    assert(pre.occ_at(pen_coords_spec(colour)[kk]).len() == 0);
                }
            }
            return Err(());
        }
        let start = pens[sel];
        let ghost pv = cview(start);
        proof {
            lemma_pen_coord_members(colour, pv);
            assert(is_pen_coord(colour, pv)) by {
                assert(pen_coords_spec(colour).contains(pen_coords_spec(colour)[sel as int]));
            }
            assert(in_bounds(pv));
            // the occupant of an occupied pen square is a locked token
            // of this colour, so the colour is active and the square is
            // its pen square
            let x = pre.occ_at(pv)[0];
            assert(x < pre.ngotis() && pre.gpos(x) == pv && pre.on_board(x));
            assert(pre.in_locked(x)) by {
                if pre.in_moving(x) {
                    let kk = choose|kk: int|
                        0 <= kk < pre.mseq(pre.gcol(x)).len() && pre.mseq(pre.gcol(x))[kk] == x;
                    assert(pre.moving_kind_ok(spec_kind(pre.active_colours@, pv)));
                }
            }
            assert(pre.gcol(x) == colour) by {
                let kk = choose|kk: int|
                    0 <= kk < pre.lseq(pre.gcol(x)).len() && pre.lseq(pre.gcol(x))[kk] == x;
                assert(is_pen_coord(pre.gcol(x), pre.gpos(x)));
                lemma_pen_owner_unique(pre.gcol(x), colour, pv);
            }
            assert(pre.is_active(colour)) by {
                assert(pre.is_active(pre.gcol(x)));
            }
            assert(pre.kind_rc(pv.0, pv.1) == spec_kind(pre.active_colours@, pv));
            assert(spec_kind(pre.active_colours@, pv) == LudoCellType::LockedPosition(colour));
            assert(pre.valid_start(colour, start));
            assert(pre.mp(colour, start, 6) == Some(start_coord_spec(colour)));
            assert(pre.has_colour_at(pv, colour)) by {
                assert(pre.gcol(pre.occ_at(pv)[0]) == colour);
            }
            assert(pre.is_first_of_colour(pv, colour, 0));
            assert(pre.lseq(colour).len() > 0) by {
                assert(pre.lseq(colour).contains(x));
                let kk = choose|kk: int|
                    0 <= kk < pre.lseq(colour).len() && pre.lseq(colour)[kk] == x;
            }
        }
        let r = self.move_goti(colour, start, 6);
        match r {
            Ok(_m) => {
                proof {
                    lemma_start_end_kinds(pre.active_colours@, colour);
                    assert(Self::move_cells_ok(
                        pre,
                        *self,
                        colour,
                        pv,
                        0,
                        start_coord_spec(colour),
                    ));
                    assert(Self::move_counts_ok(
                        pre,
                        *self,
                        colour,
                        pv,
                        start_coord_spec(colour),
                    ));
                    assert(!pre.attack_happens(colour, start_coord_spec(colour)));
                    assert(pv != start_coord_spec(colour)) by {
                        assert(spec_kind(pre.active_colours@, start_coord_spec(colour))
                            == LudoCellType::SafeSpot);
                    }
                    assert(self.occ_at(start_coord_spec(colour)) == pre.occ_at(
                        start_coord_spec(colour),
                    ).push(pre.occ_at(pv)[0]));
                    assert forall|t: Rang|
                        t != colour implies (#[trigger] self.lseq(t)).len() == pre.lseq(t).len()
                        && self.mseq(t).len() == pre.mseq(t).len() && self.fin(t) == pre.fin(t)
                        by {
                        if t == Rang::Red {
                            assert(Self::other_counts_ok(
                                pre,
                                *self,
                                colour,
                                pv,
                                start_coord_spec(colour),
                                Rang::Red,
                            ));
                        } else if t == Rang::Green {
                            assert(Self::other_counts_ok(
                                pre,
                                *self,
                                colour,
                                pv,
                                start_coord_spec(colour),
                                Rang::Green,
                            ));
                        } else if t == Rang::Yellow {
                            assert(Self::other_counts_ok(
                                pre,
                                *self,
                                colour,
                                pv,
                                start_coord_spec(colour),
                                Rang::Yellow,
                            ));
                        } else {
                            assert(Self::other_counts_ok(
                                pre,
                                *self,
                                colour,
                                pv,
                                start_coord_spec(colour),
                                Rang::Blue,
                            ));
                        }
                    }
                }
                proof {
                    let id0 = pre.occ_at(pv)[0];
                    assert(pre.is_first_of_colour(pv, colour, 0));
                    assert(self.occ_at(pv) == pre.occ_at(pv).remove(0));
                    assert(self.gpos(id0) == start_coord_spec(colour));
                    assert(self.in_moving(id0) && !self.in_locked(id0));
                    assert(self.occ_at(start_coord_spec(colour)) == pre.occ_at(
                        start_coord_spec(colour),
                    ).push(id0));
                    assert({
                        let pen = pen_coords_spec(colour)[sel as int];
                        let id = pre.occ_at(pen)[0];
                        &&& 0 <= sel < 4
                        &&& (forall|j: int|
                            0 <= j < sel ==> pre.occ_at(#[trigger] pen_coords_spec(colour)[j]).len()
                                == 0)
                        &&& pre.occ_at(pen).len() > 0
                        &&& self.occ_at(pen) == pre.occ_at(pen).remove(0)
                        &&& self.gpos(id) == start_coord_spec(colour)
                        &&& self.in_moving(id)
                        &&& !self.in_locked(id)
                        &&& self.occ_at(start_coord_spec(colour)) == pre.occ_at(
                            start_coord_spec(colour),
                        ).push(id)
                    });
                }
                Ok(())
            },
            Err(_e) => {
                proof {
                    assert(false);
                }
                Err(())
            },
        }
    }

    /// The distinct current coordinates of `colour`'s moving tokens
    /// from which a move of `dist` steps is legal, in order of first
    /// occurrence along the moving list: exactly `movable_upto` over
    /// the whole list, so equal states always yield the identical
    /// list. Unlock opportunities are not included; pen counts are
    /// queried separately. Pure read.
    #[verifier::rlimit(100)]
    pub fn get_movable_gotis(&self, colour: Rang, dist: u8) -> (r: Vec<(u8, u8)>)
        requires
            self.wf(),
        ensures
            coord_views(r@) == self.movable_upto(colour, dist, self.mseq(colour).len() as int),
            forall|k: int|
                0 <= k < r@.len() ==> self.has_moving_at(colour, cview(#[trigger] r@[k]))
                    && self.mp(colour, r@[k], dist) is Some,
            forall|m: int|
                0 <= m < self.mseq(colour).len() && self.mp(
                    colour,
                    self.gotis@[#[trigger] self.mseq(colour)[m] as int].coords,
                    dist,
                ) is Some ==> exists|k: int|
                    0 <= k < r@.len() && cview(#[trigger] r@[k]) == self.gpos(
                        self.mseq(colour)[m],
                    ),
            forall|k1: int, k2: int|
                0 <= k1 < r@.len() && 0 <= k2 < r@.len() && k1 != k2 ==> cview(#[trigger] r@[k1])
                    != cview(#[trigger] r@[k2]),
    {
        let i = Self::team_idx(colour);
        proof {
            Self::lemma_team_index_roundtrip(colour);
        }
        let mut r: Vec<(u8, u8)> = Vec::new();
        let mut m: usize = 0;
        proof {
            assert(coord_views(r@) =~= self.movable_upto(colour, dist, 0));
        }
        while m < self.moving_gotis[i].len()
            invariant
                self.wf(),
                i == team_index(colour),
                i < 4,
                m <= self.mseq(colour).len(),
                coord_views(r@) == self.movable_upto(colour, dist, m as int),
                forall|k: int|
                    0 <= k < r@.len() ==> self.has_moving_at(colour, cview(#[trigger] r@[k]))
                        && self.mp(colour, r@[k], dist) is Some,
                forall|mm: int|
                    0 <= mm < m && self.mp(
                        colour,
                        self.gotis@[#[trigger] self.mseq(colour)[mm] as int].coords,
                        dist,
                    ) is Some ==> exists|k: int|
                        0 <= k < r@.len() && cview(#[trigger] r@[k]) == self.gpos(
                            self.mseq(colour)[mm],
                        ),
                forall|k1: int, k2: int|
                    0 <= k1 < r@.len() && 0 <= k2 < r@.len() && k1 != k2 ==> cview(
                        #[trigger] r@[k1],
                    ) != cview(#[trigger] r@[k2]),
            decreases self.mseq(colour).len() - m,
        {
            let id = self.moving_gotis[i][m];
            proof {
                assert(self.mseq(colour)[m as int] == id);
                assert(id < self.ngotis() && in_bounds(self.gpos(id)) && self.moving_kind_ok(
                    spec_kind(self.active_colours@, self.gpos(id)),
                ));
                lemma_usable_has_next(self.active_colours@, self.gpos(id));
                assert(self.kind_rc(self.gpos(id).0, self.gpos(id).1) == spec_kind(
                    self.active_colours@,
                    self.gpos(id),
                ));
            }
            let coords = self.gotis[id].coords;
            let movable = self.is_move_possible(colour, coords, dist).is_some();
            let ghost r0 = r@;
            let mut seen = false;
            if movable {
                let mut j: usize = 0;
                while j < r.len()
                    invariant
                        r@ == r0,
                        j <= r@.len(),
                        seen ==> exists|k: int|
                            0 <= k < r@.len() && cview(#[trigger] r@[k]) == cview(coords),
                        !seen ==> forall|k: int|
                            0 <= k < j ==> cview(#[trigger] r@[k]) != cview(coords),
                    decreases r@.len() - j,
                {
                    let p = r[j];
                    if p.0 == coords.0 && p.1 == coords.1 {
                        proof {
                            assert(cview(r@[j as int]) == cview(coords));
                        }
                        seen = true;
                    }
                    j += 1;
                }
                if !seen {
                    r.push(coords);
                }
            }
            proof {
                let pv = cview(coords);
                assert(pv == self.gpos(id));
                let prev = self.movable_upto(colour, dist, m as int);
                assert(coord_views(r0) == prev);
                // the run-time duplicate scan decides exactly
                // membership in the list built so far
                if movable {
                    assert(seen == prev.contains(pv)) by {
                        if seen {
                            let k = choose|k: int|
                                0 <= k < r0.len() && cview(r0[k]) == cview(coords);
                            assert(coord_views(r0)[k] == pv);
                            assert(prev.contains(pv));
                        }
                        if prev.contains(pv) {
                            let k = choose|k: int| 0 <= k < prev.len() && prev[k] == pv;
                            assert(coord_views(r0)[k] == cview(r0[k]));
                            assert(cview(r0[k]) == pv);
                        }
                    }
                }
                assert(self.movable_upto(colour, dist, m as int + 1) == (
                if self.mp(colour, self.gotis@[self.mseq(colour)[m as int] as int].coords, dist)
                    is Some && !prev.contains(self.gpos(self.mseq(colour)[m as int])) {
                    prev.push(self.gpos(self.mseq(colour)[m as int]))
                } else {
                    prev
                }));
                if movable && !seen {
                    assert(r@ == r0.push(coords));
                    assert(coord_views(r@) =~= prev.push(pv)) by {
                        assert(coord_views(r@).len() == r0.len() + 1);
                        assert forall|k: int| 0 <= k < r@.len() implies coord_views(r@)[k]
                            == prev.push(pv)[k] by {
                            assert(coord_views(r@)[k] == cview(r@[k]));
                            if k < r0.len() {
                                assert(r@[k] == r0[k]);
                                assert(coord_views(r0)[k] == cview(r0[k]));
                            } else {
                                assert(r@[k] == coords);
                            }
                        }
                    }
                    assert forall|k: int|
                        0 <= k < r@.len() implies self.has_moving_at(
                        colour,
                        cview(#[trigger] r@[k]),
                    ) && self.mp(colour, r@[k], dist) is Some by {
                        if k < r0.len() {
                            assert(r@[k] == r0[k]);
                            assert(self.has_moving_at(colour, cview(r0[k])) && self.mp(
                                colour,
                                r0[k],
                                dist,
                            ) is Some);
                        } else {
                            assert(r@[k] == coords);
                            assert(self.gpos(self.mseq(colour)[m as int]) == pv);
                            assert(self.has_moving_at(colour, pv));
                        }
                    }
                    assert forall|k1: int, k2: int|
                        0 <= k1 < r@.len() && 0 <= k2 < r@.len() && k1 != k2 implies cview(
                        #[trigger] r@[k1],
                    ) != cview(#[trigger] r@[k2]) by {
                        if k1 < r0.len() && k2 < r0.len() {
                            assert(r@[k1] == r0[k1] && r@[k2] == r0[k2]);
                        } else if k1 < r0.len() {
                            assert(r@[k2] == coords && r@[k1] == r0[k1]);
                            assert(cview(r0[k1]) != cview(coords));
                        } else {
                            assert(r@[k1] == coords && r@[k2] == r0[k2]);
                            assert(cview(r0[k2]) != cview(coords));
                        }
                    }
                } else {
                    assert(r@ == r0);
                }
                assert forall|mm: int|
                    0 <= mm < m + 1 && self.mp(
                        colour,
                        self.gotis@[#[trigger] self.mseq(colour)[mm] as int].coords,
                        dist,
                    ) is Some implies exists|k: int|
                    0 <= k < r@.len() && cview(#[trigger] r@[k]) == self.gpos(
                        self.mseq(colour)[mm],
                    ) by {
                    if mm == m as int {
                        if seen {
                            let k = choose|k: int|
                                0 <= k < r0.len() && cview(r0[k]) == cview(coords);
                            assert(cview(r@[k]) == self.gpos(self.mseq(colour)[mm]));
                        } else {
                            assert(cview(r@[r@.len() - 1]) == self.gpos(self.mseq(colour)[mm]));
                        }
                    } else {
                        let k = choose|k: int|
                            0 <= k < r0.len() && cview(r0[k]) == self.gpos(self.mseq(colour)[mm]);
                        assert(cview(r@[k]) == self.gpos(self.mseq(colour)[mm]));
                    }
                }
            }
            m += 1;
        }
        r
    }

    /// A colour is finished when it is not playing at all, or when it
    /// has no locked and no moving token left (all four are home).
    pub fn is_finished(&self, colour: Rang) -> (r: bool)
        requires
            self.wf(),
        ensures
            r == (!self.is_active(colour) || (self.lseq(colour).len() == 0 && self.mseq(
                colour,
            ).len() == 0)),
            self.is_active(colour) ==> r == (self.fin(colour) == 4),
    {
        if !Self::contains_colour(&self.active_colours, colour) {
            true
        } else {
            let i = Self::team_idx(colour);
            proof {
                Self::lemma_team_index_roundtrip(colour);
                assert(self.team_total(i as int) == 4);
            }
            self.moving_gotis[i].is_empty() && self.locked_gotis[i].is_empty()
        }
    }

    /// The game is over exactly when every active colour is finished.
    pub fn is_game_finished(&self) -> (r: bool)
        requires
            self.wf(),
        ensures
            r == forall|t: Rang|
                self.is_active(t) ==> #[trigger] self.lseq(t).len() == 0 && self.mseq(t).len()
                    == 0,
    {
        let mut j: usize = 0;
        while j < self.active_colours.len()
            invariant
                self.wf(),
                j <= self.active_colours@.len(),
                forall|k: int|
                    0 <= k < j ==> self.lseq(#[trigger] self.active_colours@[k]).len() == 0
                        && self.mseq(self.active_colours@[k]).len() == 0,
            decreases self.active_colours@.len() - j,
        {
            if !self.is_finished(self.active_colours[j]) {
                proof {
                    let t0 = self.active_colours@[j as int];
                    assert(self.active_colours@.contains(t0));
                    assert(self.is_active(t0));
                    assert(!(self.lseq(t0).len() == 0 && self.mseq(t0).len() == 0));
                    assert(!(forall|t: Rang|
                        self.is_active(t) ==> #[trigger] self.lseq(t).len() == 0 && self.mseq(
                            t,
                        ).len() == 0));
                }
                return false;
            }
            proof {
                let t1 = self.active_colours@[j as int];
                assert(self.active_colours@.contains(t1));
                assert(self.is_active(t1));
                assert(self.lseq(t1).len() == 0 && self.mseq(t1).len() == 0);
                assert forall|k: int| 0 <= k < j + 1 implies #[trigger] self.lseq(
                    self.active_colours@[k],
                ).len() == 0 && self.mseq(self.active_colours@[k]).len() == 0 by {
                    if k == j as int {
                        assert(self.active_colours@[k] == t1);
                    } else {
                        assert(self.lseq(self.active_colours@[k]).len() == 0 && self.mseq(
                            self.active_colours@[k],
                        ).len() == 0);
                    }
                }
            }
            j += 1;
        }
        proof {
            assert forall|t: Rang| self.is_active(t) implies #[trigger] self.lseq(t).len() == 0
                && self.mseq(t).len() == 0 by {
                let k = choose|k: int|
                    0 <= k < self.active_colours@.len() && self.active_colours@[k] == t;
            }
        }
        true
    }

    /// How many tokens of `colour` wait in the pen, or `None` for a
    /// colour that is not playing.
    pub fn get_num_locked(&self, colour: Rang) -> (r: Option<u8>)
        requires
            self.wf(),
        ensures
            self.is_active(colour) ==> r == Some(self.lseq(colour).len() as u8),
            !self.is_active(colour) ==> r is None,
    {
        if !Self::contains_colour(&self.active_colours, colour) {
            None
        } else {
            let i = Self::team_idx(colour);
            proof {
                Self::lemma_team_index_roundtrip(colour);
                assert(self.team_total(i as int) == 4);
            }
            Some(self.locked_gotis[i].len() as u8)
        }
    }
}

} // verus!
