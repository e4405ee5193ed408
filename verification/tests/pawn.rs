use std::collections::HashSet;
use xiangqi::board::generate_board;
use xiangqi::chess::pawn::Pawn;
use xiangqi::chess::{
    ChessTrait, BLACK_LEFTEST_PAWN_ID, BLACK_MIDDLE_LEFT_PAWN_ID, BLACK_MIDDLE_PAWN_ID,
    BLACK_MIDDLE_RIGHT_PAWN_ID, BLACK_RIGHTEST_PAWN_ID, RED_LEFTEST_PAWN_ID,
    RED_MIDDLE_LEFT_PAWN_ID, RED_MIDDLE_PAWN_ID, RED_MIDDLE_RIGHT_PAWN_ID, RED_RIGHTEST_PAWN_ID,
};
use xiangqi::position::Position;
use xiangqi::vec2d::Vec2d;

fn pos(x: usize, y: usize) -> Position {
    Position { x, y }
}

fn check_options(expected: &[Position], calculated: &[Option<Position>]) {
    let calculated_set: HashSet<Position> =
        calculated.iter().filter_map(|opt| opt.as_ref()).copied().collect();
    for pos in expected {
        assert!(
            calculated_set.contains(pos),
            "calculated does not contains pos: {:?}",
            pos
        );
    }
}

fn live(options: &[Option<Position>], count: usize) -> HashSet<Position> {
    options[..count].iter().map(|o| o.unwrap()).collect()
}

fn options_on(id: i8, from: Position, others: &[(i8, Position)]) -> HashSet<Position> {
    let mut chesses = vec![(id, from)];
    chesses.extend_from_slice(others);
    let board = generate_board(chesses);
    let mut pawn = Pawn::new_with_pos(id, from);
    let (options, count) = pawn.walk_options(&board);
    let set = live(options, count);
    assert_eq!(set.len(), count);
    set
}

#[test]
fn pawn_empty() {
    // red middle pawn
    let pawn_id = RED_MIDDLE_PAWN_ID;
    let pawn_pos = pos(4, 3);
    let board = generate_board(vec![(pawn_id, pawn_pos)]);
    let mut pawn = Pawn::new(pawn_id);
    let (walk_options, option_count) = pawn.walk_options(&board);
    assert_eq!(option_count, 1);
    let expected: [Position; 1] = [pos(4, 4)];
    check_options(&expected, walk_options);

    // black middle pawn
    let pawn_id = BLACK_MIDDLE_PAWN_ID;
    let pawn_pos = pos(4, 6);
    let board = generate_board(vec![(pawn_id, pawn_pos)]);
    let mut pawn = Pawn::new(pawn_id);
    let (walk_options, option_count) = pawn.walk_options(&board);
    assert_eq!(option_count, 1);
    let expected: [Position; 1] = [pos(4, 5)];
    check_options(&expected, walk_options);
}

#[test]
fn pawn_unreachable() {
    // black middle left pawn
    let pawn_id = BLACK_MIDDLE_LEFT_PAWN_ID;
    let pawn_pos = pos(2, 4);
    let board = generate_board(vec![
        (pawn_id, pawn_pos),
        (-9, pos(2, 5)),
        (8, pos(1, 3)),
        (11, pos(2, 2)),
    ]);
    let mut pawn = Pawn::new_with_pos(pawn_id, pawn_pos);
    let (walk_options, option_count) = pawn.walk_options(&board);
    assert_eq!(option_count, 3);
    let expected: [Position; 3] = [pos(2, 3), pos(1, 4), pos(3, 4)];
    check_options(&expected, walk_options);
}

#[test]
fn pawn_enemy() {
    let pawn_id = RED_RIGHTEST_PAWN_ID;
    let pawn_pos = pos(8, 4);
    let board = generate_board(vec![
        (pawn_id, pawn_pos),
        (-14, pos(8, 5)), // enemy here, eat him
        (5, pos(7, 4)),
    ]);
    let mut pawn = Pawn::new_with_pos(pawn_id, pawn_pos);
    let (walk_options, option_count) = pawn.walk_options(&board);
    assert_eq!(option_count, 1);
    let expected: [Position; 1] = [pos(8, 5)];
    check_options(&expected, walk_options);
}

#[test]
fn teamate() {
    let pawn_id = BLACK_MIDDLE_RIGHT_PAWN_ID;
    let pawn_pos = pos(6, 0);
    let board = generate_board(vec![(pawn_id, pawn_pos), (8, pos(6, 1)), (7, pos(5, 0))]);
    let mut pawn = Pawn::new_with_pos(pawn_id, pawn_pos);
    let (walk_options, option_count) = pawn.walk_options(&board);
    assert_eq!(option_count, 2);
    let expected: [Position; 2] = [pos(5, 0), pos(7, 0)];
    check_options(&expected, walk_options);
}

#[test]
fn pawn_homes() {
    let homes = [
        (RED_MIDDLE_PAWN_ID, pos(4, 3)),
        (RED_MIDDLE_LEFT_PAWN_ID, pos(2, 3)),
        (RED_MIDDLE_RIGHT_PAWN_ID, pos(6, 3)),
        (RED_LEFTEST_PAWN_ID, pos(0, 3)),
        (RED_RIGHTEST_PAWN_ID, pos(8, 3)),
        (BLACK_MIDDLE_PAWN_ID, pos(4, 6)),
        (BLACK_MIDDLE_LEFT_PAWN_ID, pos(2, 6)),
        (BLACK_MIDDLE_RIGHT_PAWN_ID, pos(6, 6)),
        (BLACK_LEFTEST_PAWN_ID, pos(0, 6)),
        (BLACK_RIGHTEST_PAWN_ID, pos(8, 6)),
    ];
    for (id, home) in homes {
        let board = generate_board(vec![(id, home)]);
        let mut pawn = Pawn::new(id);
        let (options, count) = pawn.walk_options(&board);
        assert_eq!(count, 1);
        let ahead = if id > 0 { pos(home.x, home.y + 1) } else { pos(home.x, home.y - 1) };
        assert_eq!(options[0], Some(ahead));
    }
}

#[test]
fn pawn_before_the_river_only_steps_ahead() {
    // the last row before the river, for each side
    assert_eq!(options_on(RED_MIDDLE_PAWN_ID, pos(4, 4), &[]), [pos(4, 5)].into_iter().collect());
    assert_eq!(
        options_on(BLACK_MIDDLE_PAWN_ID, pos(4, 5), &[]),
        [pos(4, 4)].into_iter().collect()
    );
    // a piece of the same side ahead: nothing
    assert!(options_on(RED_MIDDLE_PAWN_ID, pos(4, 3), &[(10, pos(4, 4))]).is_empty());
    // an enemy ahead: taken
    assert_eq!(
        options_on(RED_MIDDLE_PAWN_ID, pos(4, 3), &[(-10, pos(4, 4)), (-11, pos(3, 3))]),
        [pos(4, 4)].into_iter().collect()
    );
}

#[test]
fn pawn_beyond_the_river_steps_ahead_and_sideways_never_back() {
    assert_eq!(
        options_on(RED_MIDDLE_PAWN_ID, pos(4, 5), &[(-1, pos(4, 4))]),
        [pos(5, 5), pos(4, 6), pos(3, 5)].into_iter().collect()
    );
    assert_eq!(
        options_on(BLACK_MIDDLE_PAWN_ID, pos(4, 4), &[(1, pos(4, 5))]),
        [pos(5, 4), pos(4, 3), pos(3, 4)].into_iter().collect()
    );
    // on the last row nothing lies ahead
    assert_eq!(
        options_on(RED_MIDDLE_PAWN_ID, pos(0, 9), &[]),
        [pos(1, 9)].into_iter().collect()
    );
    // pieces of the same side on all three
    assert!(options_on(
        RED_MIDDLE_PAWN_ID,
        pos(4, 6),
        &[(1, pos(3, 6)), (2, pos(5, 6)), (3, pos(4, 7))]
    )
    .is_empty());
}

#[test]
fn pawn_walk_and_twice() {
    let board = generate_board(vec![(RED_MIDDLE_PAWN_ID, pos(4, 3))]);
    let mut pawn = Pawn::new(RED_MIDDLE_PAWN_ID);
    let (_, first) = pawn.walk_options(&board);
    let (options, second) = pawn.walk_options(&board);
    assert_eq!(first, 1);
    assert_eq!(second, 1);
    assert_eq!(options[0], Some(pos(4, 4)));
    assert!(!pawn.walk(Vec2d { x: 0, y: -1 }));
    assert!(!pawn.walk(Vec2d { x: 1, y: 0 }));
    assert!(pawn.walk(Vec2d { x: 0, y: 1 }));
    let board = generate_board(vec![(RED_MIDDLE_PAWN_ID, pos(4, 4))]);
    let (options, count) = pawn.walk_options(&board);
    assert_eq!(count, 1);
    assert_eq!(options[0], Some(pos(4, 5)));
}

#[test]
fn pawn_names_and_life() {
    let mut red = Pawn::new(RED_LEFTEST_PAWN_ID);
    let black = Pawn::new(BLACK_RIGHTEST_PAWN_ID);
    assert_eq!(red.get_name(), '兵');
    assert_eq!(black.get_name(), '卒');
    assert!(red.is_alive());
    red.killed();
    assert!(!red.is_alive());
}
