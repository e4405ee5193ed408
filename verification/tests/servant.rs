use std::collections::HashSet;
use xiangqi::board::generate_board;
use xiangqi::chess::servant::Servant;
use xiangqi::chess::{
    ChessTrait, BLACK_LEFT_SERVANT_ID, BLACK_RIGHT_SERVANT_ID, RED_LEFT_SERVANT_ID,
    RED_RIGHT_SERVANT_ID,
};
use xiangqi::position::Position;
use xiangqi::vec2d::Vec2d;

fn pos(x: usize, y: usize) -> Position {
    Position { x, y }
}

fn check_options(expected: &[Position], calculated: &[Option<Position>]) {
    let calculated_set: HashSet<Position> =
        calculated.iter().filter_map(|opt| opt.as_ref()).copied().collect();
    for pos in expected {
        assert!(
            calculated_set.contains(pos),
            "calculated does not contains pos: {:?}",
            pos
        );
    }
}

fn live(options: &[Option<Position>], count: usize) -> HashSet<Position> {
    options[..count].iter().map(|o| o.unwrap()).collect()
}

#[test]
fn servant_empty() {
    // red left servant
    let servant_id = RED_LEFT_SERVANT_ID;
    let servant_pos = pos(3, 0);
    let board = generate_board(vec![(servant_id, servant_pos)]);
    let mut servant = Servant::new(servant_id);
    let (walk_options, option_count) = servant.walk_options(&board);
    assert_eq!(option_count, 1);
    let expected: [Position; 1] = [pos(4, 1)];
    check_options(&expected, walk_options);

    // black right servant
    let servant_id = BLACK_RIGHT_SERVANT_ID;
    let servant_pos = pos(5, 9);
    let board = generate_board(vec![(servant_id, servant_pos)]);
    let mut servant = Servant::new(servant_id);
    let (walk_options, option_count) = servant.walk_options(&board);
    assert_eq!(option_count, 1);
    let expected: [Position; 1] = [pos(4, 8)];
    check_options(&expected, walk_options);
}

#[test]
fn unreachable_pieces() {
    let servant_id = RED_RIGHT_SERVANT_ID;
    let servant_pos = pos(4, 1);
    let board = generate_board(vec![
        (servant_id, servant_pos),
        (5, pos(2, 0)),
        (-13, pos(3, 2)),
        (9, pos(4, 2)),
        (-9, pos(8, 6)),
    ]);
    let mut servant = Servant::new_with_pos(servant_id, servant_pos);
    let (walk_options, option_count) = servant.walk_options(&board);
    assert_eq!(option_count, 4);
    let expected: [Position; 4] = [pos(3, 0), pos(3, 2), pos(5, 0), pos(5, 2)];
    check_options(&expected, walk_options);
}

#[test]
fn servant_enemy() {
    let servant_id = BLACK_LEFT_SERVANT_ID;
    let servant_pos = pos(5, 7);
    let board = generate_board(vec![
        (servant_id, servant_pos),
        (5, pos(4, 8)),
        (6, pos(5, 8)),
        (-8, pos(6, 8)),
    ]);
    let mut servant = Servant::new_with_pos(servant_id, servant_pos);
    let (walk_options, option_count) = servant.walk_options(&board);
    assert_eq!(option_count, 1);
    let expected: [Position; 1] = [pos(4, 8)];
    check_options(&expected, walk_options);
}

#[test]
fn servant_teammate() {
    let servant_id = RED_LEFT_SERVANT_ID;
    let servant_pos = pos(3, 2);
    let board = generate_board(vec![
        (servant_id, servant_pos),
        (8, pos(3, 1)),
        (9, pos(4, 1)),
        (10, pos(4, 2)),
        (-11, pos(3, 3)),
    ]);
    let mut servant = Servant::new_with_pos(servant_id, servant_pos);
    let (_, option_count) = servant.walk_options(&board);
    assert_eq!(option_count, 0);
}

#[test]
fn servant_homes() {
    let homes = [
        (RED_LEFT_SERVANT_ID, pos(3, 0), pos(4, 1)),
        (RED_RIGHT_SERVANT_ID, pos(5, 0), pos(4, 1)),
        (BLACK_LEFT_SERVANT_ID, pos(3, 9), pos(4, 8)),
        (BLACK_RIGHT_SERVANT_ID, pos(5, 9), pos(4, 8)),
    ];
    for (id, home, centre) in homes {
        let board = generate_board(vec![(id, home)]);
        let mut servant = Servant::new(id);
        let (options, count) = servant.walk_options(&board);
        assert_eq!(count, 1);
        assert_eq!(options[0], Some(centre));
    }
}

#[test]
fn servant_from_the_centre() {
    let board = generate_board(vec![(BLACK_LEFT_SERVANT_ID, pos(4, 8))]);
    let mut servant = Servant::new_with_pos(BLACK_LEFT_SERVANT_ID, pos(4, 8));
    let (options, count) = servant.walk_options(&board);
    let expected: HashSet<Position> =
        [pos(3, 9), pos(5, 9), pos(3, 7), pos(5, 7)].into_iter().collect();
    assert_eq!(count, 4);
    assert_eq!(live(options, count), expected);
}

#[test]
fn servant_walk_and_twice() {
    let board = generate_board(vec![(RED_LEFT_SERVANT_ID, pos(3, 0))]);
    let mut servant = Servant::new(RED_LEFT_SERVANT_ID);
    let (_, first) = servant.walk_options(&board);
    let (_, second) = servant.walk_options(&board);
    assert_eq!(first, 1);
    assert_eq!(second, 1);
    assert!(!servant.walk(Vec2d { x: 1, y: 0 }));
    assert!(!servant.walk(Vec2d { x: -1, y: -1 }));
    assert!(servant.walk(Vec2d { x: 1, y: 1 }));
    let board = generate_board(vec![(RED_LEFT_SERVANT_ID, pos(4, 1))]);
    let (options, count) = servant.walk_options(&board);
    let expected: HashSet<Position> =
        [pos(3, 0), pos(5, 0), pos(3, 2), pos(5, 2)].into_iter().collect();
    assert_eq!(live(options, count), expected);
}

#[test]
fn servant_names_and_life() {
    let mut red = Servant::new(RED_RIGHT_SERVANT_ID);
    let black = Servant::new_with_pos(BLACK_LEFT_SERVANT_ID, pos(4, 8));
    assert_eq!(red.get_name(), '仕');
    assert_eq!(black.get_name(), '士');
    assert!(red.is_alive());
    red.killed();
    assert!(!red.is_alive());
}
