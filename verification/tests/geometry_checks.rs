use ludo_engine::engine::LudoEngine;
use ludo_engine::rang::Rang;

#[test]
fn fixed_corner_turns() {
    assert_eq!(LudoEngine::get_next_coord(Rang::Red, (0, 6)), (0, 7));
    assert_eq!(LudoEngine::get_next_coord(Rang::Red, (0, 8)), (1, 8));
    assert_eq!(LudoEngine::get_next_coord(Rang::Blue, (14, 6)), (13, 6));
    assert_eq!(LudoEngine::get_next_coord(Rang::Green, (9, 6)), (8, 5));
    assert_eq!(LudoEngine::get_next_coord(Rang::Yellow, (5, 8)), (6, 9));
}

#[test]
fn home_turns_divert_only_their_own_colour() {
    assert_eq!(LudoEngine::get_next_coord(Rang::Red, (14, 7)), (13, 7));
    assert_eq!(LudoEngine::get_next_coord(Rang::Green, (14, 7)), (14, 6));
    assert_eq!(LudoEngine::get_next_coord(Rang::Green, (7, 0)), (7, 1));
    assert_eq!(LudoEngine::get_next_coord(Rang::Red, (7, 0)), (6, 0));
    assert_eq!(LudoEngine::get_next_coord(Rang::Yellow, (0, 7)), (1, 7));
    assert_eq!(LudoEngine::get_next_coord(Rang::Blue, (0, 7)), (0, 8));
    assert_eq!(LudoEngine::get_next_coord(Rang::Blue, (7, 14)), (7, 13));
    assert_eq!(LudoEngine::get_next_coord(Rang::Yellow, (7, 14)), (8, 14));
}

#[test]
fn straight_travel_follows_the_arms() {
    assert_eq!(LudoEngine::get_next_coord(Rang::Red, (6, 3)), (6, 4));
    assert_eq!(LudoEngine::get_next_coord(Rang::Red, (8, 11)), (8, 10));
    assert_eq!(LudoEngine::get_next_coord(Rang::Red, (3, 6)), (2, 6));
    assert_eq!(LudoEngine::get_next_coord(Rang::Red, (11, 8)), (12, 8));
    assert_eq!(LudoEngine::get_next_coord(Rang::Red, (11, 7)), (10, 7));
    assert_eq!(LudoEngine::get_next_coord(Rang::Yellow, (3, 7)), (4, 7));
}

#[test]
fn every_colour_reaches_home_in_exactly_56_steps() {
    let starts = [
        (Rang::Red, (13u8, 6u8), (8u8, 7u8)),
        (Rang::Green, (6, 1), (7, 6)),
        (Rang::Yellow, (1, 8), (6, 7)),
        (Rang::Blue, (8, 13), (7, 8)),
    ];
    for (colour, start, end) in starts {
        let mut p = start;
        for step in 1..=56 {
            p = LudoEngine::get_next_coord(colour, p);
            if step < 56 {
                assert_ne!(p, end, "{:?} reached home early at step {}", colour, step);
            }
        }
        assert_eq!(p, end, "{:?} did not reach home in 56 steps", colour);
    }
}

#[test]
fn legality_stops_at_the_end_square() {
    let e = LudoEngine::new(vec![Rang::Red]);
    // one step short of home
    assert_eq!(e.is_move_possible(Rang::Red, (9, 7), 1), Some((8, 7)));
    // past home is no move
    assert_eq!(e.is_move_possible(Rang::Red, (9, 7), 2), None);
    // a pen square unlocks on a six and on nothing else
    assert_eq!(e.is_move_possible(Rang::Red, (10, 1), 6), Some((13, 6)));
    assert_eq!(e.is_move_possible(Rang::Red, (10, 1), 5), None);
}
