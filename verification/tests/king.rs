use std::collections::HashSet;
use xiangqi::board::generate_board;
use xiangqi::chess::king::King;
use xiangqi::chess::{ChessTrait, BLACK_KING_ID, RED_KING_ID};
use xiangqi::position::Position;
use xiangqi::vec2d::Vec2d;

fn pos(x: usize, y: usize) -> Position {
    Position { x, y }
}

fn check_options(expected: &[Position], calculated: &[Option<Position>]) {
    let calculated_set: HashSet<Position> =
        calculated.iter().filter_map(|opt| opt.as_ref()).copied().collect();
    for pos in expected {
        assert!(
            calculated_set.contains(pos),
            "calculated does not contains pos: {:?}",
            pos
        );
    }
}

fn live(options: &[Option<Position>], count: usize) -> HashSet<Position> {
    options[..count].iter().map(|o| o.unwrap()).collect()
}

#[test]
fn king_empty() {
    // red king
    let king_id = RED_KING_ID;
    let king_pos = pos(4, 0);
    let board = generate_board(vec![(king_id, king_pos)]);
    let mut king = King::new(king_id);
    let (walk_options, option_count) = king.walk_options(&board);
    assert_eq!(option_count, 3);
    let expected: [Position; 3] = [pos(3, 0), pos(4, 1), pos(5, 0)];
    check_options(&expected, walk_options);

    // black king
    let king_id = BLACK_KING_ID;
    let king_pos = pos(4, 9);
    let board = generate_board(vec![(king_id, king_pos)]);
    let mut king = King::new(king_id);
    let (walk_options, option_count) = king.walk_options(&board);
    assert_eq!(option_count, 3);
    let expected: [Position; 3] = [pos(3, 9), pos(4, 8), pos(5, 9)];
    check_options(&expected, walk_options);
}

#[test]
fn king_unreachable_peices() {
    let king_id = RED_KING_ID;
    let king_pos = pos(4, 1);
    let board = generate_board(vec![
        (king_id, king_pos),
        (-5, pos(8, 8)),
        (11, pos(1, 1)),
        (8, pos(3, 7)),
    ]);
    let mut king = King::new_with_pos(king_id, king_pos);
    let (walk_options, option_count) = king.walk_options(&board);
    assert_eq!(option_count, 4);
    let expected: [Position; 4] = [pos(3, 1), pos(4, 2), pos(5, 1), pos(4, 0)];
    check_options(&expected, walk_options);
}

#[test]
fn king_enemy() {
    let king_id = RED_KING_ID;
    let king_pos = pos(4, 1);
    let board = generate_board(vec![
        (king_id, king_pos),
        (-5, pos(5, 1)),
        (-11, pos(3, 0)),
    ]);
    let mut king = King::new_with_pos(king_id, king_pos);
    let (walk_options, option_count) = king.walk_options(&board);
    assert_eq!(option_count, 4);
    let expected: [Position; 4] = [pos(3, 1), pos(4, 2), pos(5, 1), pos(4, 0)];
    check_options(&expected, walk_options);
}

#[test]
fn king_teammate() {
    let king_id = BLACK_KING_ID;
    let king_pos = pos(4, 7);
    let board = generate_board(vec![
        (king_id, king_pos),
        (-2, pos(4, 8)), // block the way up!
        (3, pos(3, 8)),  // no in the king's way
    ]);
    let mut king = King::new_with_pos(king_id, king_pos);
    let (walk_options, option_count) = king.walk_options(&board);
    assert_eq!(option_count, 2);
    let expected: [Position; 2] = [pos(3, 7), pos(5, 7)];
    check_options(&expected, walk_options);
}

#[test]
fn king_exact_set_at_home() {
    let board = generate_board(vec![(RED_KING_ID, pos(4, 0))]);
    let mut king = King::new(RED_KING_ID);
    let (options, count) = king.walk_options(&board);
    let expected: HashSet<Position> = [pos(3, 0), pos(4, 1), pos(5, 0)].into_iter().collect();
    assert_eq!(live(options, count), expected);
}

#[test]
fn king_stays_in_palace() {
    // on the edge of the palace the steps out of it are no options
    let board = generate_board(vec![(RED_KING_ID, pos(3, 2))]);
    let mut king = King::new_with_pos(RED_KING_ID, pos(3, 2));
    let (options, count) = king.walk_options(&board);
    let expected: HashSet<Position> = [pos(4, 2), pos(3, 1)].into_iter().collect();
    assert_eq!(count, 2);
    assert_eq!(live(options, count), expected);

    let board = generate_board(vec![(BLACK_KING_ID, pos(5, 7))]);
    let mut king = King::new_with_pos(BLACK_KING_ID, pos(5, 7));
    let (options, count) = king.walk_options(&board);
    let expected: HashSet<Position> = [pos(4, 7), pos(5, 8)].into_iter().collect();
    assert_eq!(count, 2);
    assert_eq!(live(options, count), expected);
}

#[test]
fn king_walk_options_twice_gives_the_same() {
    let board = generate_board(vec![(RED_KING_ID, pos(4, 1)), (-5, pos(5, 1)), (2, pos(4, 2))]);
    let mut king = King::new_with_pos(RED_KING_ID, pos(4, 1));
    let (options, count) = king.walk_options(&board);
    let first = live(options, count);
    assert_eq!(count, 3);
    let (options, count) = king.walk_options(&board);
    assert_eq!(count, 3);
    assert_eq!(live(options, count), first);
}

#[test]
fn king_walk_commits_a_listed_step_only() {
    let board = generate_board(vec![(RED_KING_ID, pos(4, 0))]);
    let mut king = King::new(RED_KING_ID);
    king.walk_options(&board);
    // two squares at once: not listed
    assert!(!king.walk(Vec2d { x: 0, y: 2 }));
    // off the board: not listed
    assert!(!king.walk(Vec2d { x: 0, y: -1 }));
    // the king has not moved: the options are those of its home
    let (options, count) = king.walk_options(&board);
    let at_home: HashSet<Position> = [pos(3, 0), pos(4, 1), pos(5, 0)].into_iter().collect();
    assert_eq!(live(options, count), at_home);
    // one step up: listed
    assert!(king.walk(Vec2d { x: 0, y: 1 }));
    let board = generate_board(vec![(RED_KING_ID, pos(4, 1))]);
    let (options, count) = king.walk_options(&board);
    let expected: HashSet<Position> =
        [pos(3, 1), pos(4, 2), pos(5, 1), pos(4, 0)].into_iter().collect();
    assert_eq!(count, 4);
    assert_eq!(live(options, count), expected);
}

#[test]
fn king_walk_before_any_options_fails() {
    let mut king = King::new(BLACK_KING_ID);
    assert!(!king.walk(Vec2d { x: 0, y: -1 }));
}

#[test]
fn king_walk_uses_the_options_of_the_last_call() {
    // the buffer is not recomputed by walk: a stale option still commits
    let board = generate_board(vec![(RED_KING_ID, pos(4, 0))]);
    let mut king = King::new(RED_KING_ID);
    king.walk_options(&board);
    assert!(king.walk(Vec2d { x: 0, y: 1 }));
    // now on (4, 1); the buffer still lists (3, 0), (4, 1), (5, 0)
    assert!(king.walk(Vec2d { x: -1, y: -1 }));
    assert!(!king.walk(Vec2d { x: 0, y: 1 }));
}

#[test]
fn king_names_and_life() {
    let mut red = King::new(RED_KING_ID);
    let black = King::new_with_pos(BLACK_KING_ID, pos(4, 8));
    assert_eq!(red.get_name(), '帅');
    assert_eq!(black.get_name(), '将');
    assert!(red.is_alive());
    red.killed();
    assert!(!red.is_alive());
    red.killed();
    assert!(!red.is_alive());
    assert!(black.is_alive());
    assert_eq!(red.get_name(), '帅');
}
