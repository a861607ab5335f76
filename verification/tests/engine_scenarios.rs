use ludo_engine::cell::LudoCellType;
use ludo_engine::engine::{LudoEngine, MoveError, MoveResult};
use ludo_engine::rang::Rang;

fn red_only() -> LudoEngine {
    LudoEngine::new(vec![Rang::Red])
}

fn red_green() -> LudoEngine {
    LudoEngine::new(vec![Rang::Red, Rang::Green])
}

/// Walks one red token from its pen all the way home.
fn finish_one_red_token(e: &mut LudoEngine) {
    e.unlock_goti(Rang::Red).unwrap();
    let mut at = (13u8, 6u8);
    for _ in 0..9 {
        match e.move_goti(Rang::Red, at, 6).unwrap() {
            MoveResult::NormalMove(p) => at = p,
            r => panic!("unexpected outcome {:?}", r),
        }
    }
    assert_eq!(at, (10, 7));
    assert_eq!(e.move_goti(Rang::Red, at, 2).unwrap(), MoveResult::Finished);
}

#[test]
fn fresh_engine_counts() {
    let e = red_only();
    assert_eq!(e.get_num_locked(Rang::Red), Some(4));
    assert_eq!(e.get_num_locked(Rang::Green), None);
    assert!(e.is_finished(Rang::Green));
    assert!(!e.is_finished(Rang::Red));
    assert!(!e.is_game_finished());
    assert_eq!(e.get_board().len(), 15);
    assert_eq!(e.get_board()[0].len(), 15);
    assert_eq!(e.gotis.len(), 4);
}

#[test]
fn board_kinds_fixed_at_construction() {
    let e = red_only();
    let b = e.get_board();
    assert_eq!(b[13][6].cell_type, LudoCellType::SafeSpot);
    assert_eq!(b[7][7].cell_type, LudoCellType::NoUse);
    assert_eq!(b[10][1].cell_type, LudoCellType::LockedPosition(Rang::Red));
    // pens of inactive colours stay unusable
    assert_eq!(b[10][10].cell_type, LudoCellType::NoUse);
    assert_eq!(b[9][7].cell_type, LudoCellType::HomeLane(Rang::Red));
    assert_eq!(b[7][1].cell_type, LudoCellType::HomeLane(Rang::Green));
    assert_eq!(b[6][0].cell_type, LudoCellType::Default);
    assert_eq!(b[8][7].cell_type, LudoCellType::NoUse);
    assert_eq!(b[0][0].cell_type, LudoCellType::NoUse);
}

#[test]
fn unlock_moves_token_to_start() {
    // fresh engine, roll 6: unlock succeeds, token reaches (13,6),
    // locked drops 4 -> 3, moving rises to 1
    let mut e = red_only();
    assert_eq!(e.unlock_goti(Rang::Red), Ok(()));
    assert_eq!(e.get_num_locked(Rang::Red), Some(3));
    assert_eq!(e.moving_gotis[0].len(), 1);
    let id = e.moving_gotis[0][0];
    assert_eq!(e.gotis[id].coords, (13, 6));
    assert_eq!(e.gotis[id].colour, Rang::Red);
    assert_eq!(e.get_board()[13][6].gotis, vec![id]);
    // the vacated pen square is empty again
    assert_eq!(e.get_board()[10][1].gotis.len(), 0);
}

#[test]
fn normal_move_advances_four_steps() {
    // red at its start square, roll 4: a plain move four geometric
    // steps along the track
    let mut e = red_only();
    e.unlock_goti(Rang::Red).unwrap();
    let r = e.move_goti(Rang::Red, (13, 6), 4);
    assert_eq!(r, Ok(MoveResult::NormalMove((9, 6))));
    assert_eq!(e.get_board()[9][6].gotis.len(), 1);
    assert_eq!(e.get_board()[13][6].gotis.len(), 0);
}

#[test]
fn landing_on_enemy_captures() {
    // a green token on a plain square is sent back to green's first
    // free pen square when red lands on it
    let mut e = red_green();
    e.unlock_goti(Rang::Green).unwrap();
    assert_eq!(
        e.move_goti(Rang::Green, (6, 1), 4),
        Ok(MoveResult::NormalMove((6, 5)))
    );
    e.unlock_goti(Rang::Red).unwrap();
    assert_eq!(
        e.move_goti(Rang::Red, (13, 6), 6),
        Ok(MoveResult::NormalMove((8, 4)))
    );
    assert_eq!(
        e.move_goti(Rang::Red, (8, 4), 6),
        Ok(MoveResult::NormalMove((6, 0)))
    );
    let r = e.move_goti(Rang::Red, (6, 0), 5);
    assert_eq!(r, Ok(MoveResult::Attacked((6, 5))));
    // green is penned again, red owns the square
    assert_eq!(e.get_num_locked(Rang::Green), Some(4));
    assert_eq!(e.moving_gotis[1].len(), 0);
    assert_eq!(e.get_board()[1][1].gotis.len(), 1);
    let gid = e.get_board()[1][1].gotis[0];
    assert_eq!(e.gotis[gid].colour, Rang::Green);
    assert_eq!(e.gotis[gid].coords, (1, 1));
    assert_eq!(e.get_board()[6][5].gotis.len(), 1);
    let rid = e.get_board()[6][5].gotis[0];
    assert_eq!(e.gotis[rid].colour, Rang::Red);
}

#[test]
fn capture_pens_every_enemy_on_the_square() {
    // two stacked green tokens are both sent back by a single landing,
    // each to the first pen square of green's that is free, in the
    // fixed pen order
    let mut e = red_green();
    e.unlock_goti(Rang::Green).unwrap();
    e.unlock_goti(Rang::Green).unwrap();
    assert_eq!(
        e.move_goti(Rang::Green, (6, 1), 4),
        Ok(MoveResult::NormalMove((6, 5)))
    );
    assert_eq!(
        e.move_goti(Rang::Green, (6, 1), 4),
        Ok(MoveResult::NormalMove((6, 5)))
    );
    assert_eq!(e.get_board()[6][5].gotis.len(), 2);
    e.unlock_goti(Rang::Red).unwrap();
    e.move_goti(Rang::Red, (13, 6), 6).unwrap();
    e.move_goti(Rang::Red, (8, 4), 6).unwrap();
    assert_eq!(
        e.move_goti(Rang::Red, (6, 0), 5),
        Ok(MoveResult::Attacked((6, 5)))
    );
    assert_eq!(e.get_num_locked(Rang::Green), Some(4));
    assert_eq!(e.moving_gotis[1].len(), 0);
    // the two vacated pens were (1,1) and (1,4); they are refilled in
    // that order
    assert_eq!(e.get_board()[1][1].gotis.len(), 1);
    assert_eq!(e.get_board()[1][4].gotis.len(), 1);
    // only the red token remains on the landing square
    assert_eq!(e.get_board()[6][5].gotis.len(), 1);
    assert_eq!(e.gotis[e.get_board()[6][5].gotis[0]].colour, Rang::Red);
}

#[test]
fn landing_on_safe_spot_never_captures() {
    // green sits on its start square, one of the eight safe spots; red
    // lands there and both co-reside
    let mut e = red_green();
    e.unlock_goti(Rang::Green).unwrap();
    e.unlock_goti(Rang::Red).unwrap();
    e.move_goti(Rang::Red, (13, 6), 6).unwrap();
    e.move_goti(Rang::Red, (8, 4), 6).unwrap();
    let r = e.move_goti(Rang::Red, (6, 0), 1);
    assert_eq!(r, Ok(MoveResult::NormalMove((6, 1))));
    assert_eq!(e.get_board()[6][1].gotis.len(), 2);
    assert_eq!(e.get_num_locked(Rang::Green), Some(3));
    assert_eq!(e.moving_gotis[1].len(), 1);
}

#[test]
fn reaching_the_end_finishes_the_token() {
    // a move onto (8,7), red's end, removes the token from the board
    // and counts it as finished
    let mut e = red_only();
    finish_one_red_token(&mut e);
    assert_eq!(e.num_finished[0], 1);
    assert_eq!(e.moving_gotis[0].len(), 0);
    assert_eq!(e.get_num_locked(Rang::Red), Some(3));
    for (r, row) in e.get_board().iter().enumerate() {
        for (c, cell) in row.iter().enumerate() {
            for &id in &cell.gotis {
                assert_eq!(e.gotis[id].coords, (r as u8, c as u8));
            }
        }
    }
    assert_eq!(e.get_board()[8][7].gotis.len(), 0);
    let on_board: usize = e.get_board().iter().flatten().map(|c| c.gotis.len()).sum();
    assert_eq!(on_board, 3);
}

#[test]
fn game_finishes_with_the_last_token() {
    let mut e = red_only();
    for k in 0..4 {
        assert!(!e.is_game_finished());
        finish_one_red_token(&mut e);
        assert_eq!(e.num_finished[0], k + 1);
    }
    assert!(e.is_game_finished());
    assert!(e.is_finished(Rang::Red));
    assert_eq!(e.get_num_locked(Rang::Red), Some(0));
}

#[test]
fn illegal_moves_are_refused_and_change_nothing() {
    let mut e = red_only();
    // a penned token moves only on a six
    let r = e.move_goti(Rang::Red, (10, 1), 3);
    assert_eq!(r, Err(MoveError::IllegalMove));
    assert_eq!(e.get_num_locked(Rang::Red), Some(4));
    // overshooting the end square is refused
    e.unlock_goti(Rang::Red).unwrap();
    let mut at = (13u8, 6u8);
    for _ in 0..9 {
        match e.move_goti(Rang::Red, at, 6).unwrap() {
            MoveResult::NormalMove(p) => at = p,
            r => panic!("unexpected outcome {:?}", r),
        }
    }
    assert_eq!(at, (10, 7));
    assert_eq!(e.move_goti(Rang::Red, at, 6), Err(MoveError::IllegalMove));
    assert_eq!(e.gotis[e.moving_gotis[0][0]].coords, (10, 7));
}

#[test]
fn moving_a_missing_token_is_refused() {
    let mut e = red_green();
    e.unlock_goti(Rang::Green).unwrap();
    // only a green token stands on (6,1)
    let r = e.move_goti(Rang::Red, (6, 1), 1);
    assert_eq!(r, Err(MoveError::TokenNotFound));
    assert_eq!(e.get_board()[6][1].gotis.len(), 1);
}

#[test]
fn movable_tokens_are_reported_distinct() {
    let mut e = red_only();
    assert_eq!(e.get_movable_gotis(Rang::Red, 3), Vec::<(u8, u8)>::new());
    e.unlock_goti(Rang::Red).unwrap();
    assert_eq!(e.get_movable_gotis(Rang::Red, 3), vec![(13, 6)]);
    // two tokens stacked on one square yield one coordinate
    e.unlock_goti(Rang::Red).unwrap();
    assert_eq!(e.get_board()[13][6].gotis.len(), 2);
    assert_eq!(e.get_movable_gotis(Rang::Red, 3), vec![(13, 6)]);
    // an inactive colour has nothing to move
    assert_eq!(e.get_movable_gotis(Rang::Blue, 6), Vec::<(u8, u8)>::new());
}

#[test]
fn unlock_fails_without_locked_tokens() {
    let mut e = red_only();
    for _ in 0..4 {
        assert_eq!(e.unlock_goti(Rang::Red), Ok(()));
    }
    assert_eq!(e.get_board()[13][6].gotis.len(), 4);
    assert_eq!(e.unlock_goti(Rang::Red), Err(()));
    // an inactive colour has nothing to unlock either
    assert_eq!(e.unlock_goti(Rang::Yellow), Err(()));
}

#[test]
fn legality_query_is_pure_and_repeatable() {
    let mut e = red_only();
    e.unlock_goti(Rang::Red).unwrap();
    let a = e.is_move_possible(Rang::Red, (13, 6), 4);
    let b = e.is_move_possible(Rang::Red, (13, 6), 4);
    assert_eq!(a, b);
    assert_eq!(a, Some((9, 6)));
    assert_eq!(e.get_num_locked(Rang::Red), Some(3));
    assert_eq!(e.get_board()[13][6].gotis.len(), 1);
}

#[test]
fn turn_cursor_is_informational() {
    let mut e = red_green();
    assert_eq!(e.curr_colour, Rang::Red);
    e.set_current_colour(Rang::Green);
    assert_eq!(e.curr_colour, Rang::Green);
    // legality is unaffected by whose turn is recorded
    e.unlock_goti(Rang::Red).unwrap();
    assert_eq!(
        e.move_goti(Rang::Red, (13, 6), 1),
        Ok(MoveResult::NormalMove((12, 6)))
    );
}
