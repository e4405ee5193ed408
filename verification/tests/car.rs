use std::collections::HashSet;
use xiangqi::board::generate_board;
use xiangqi::chess::car::Car;
use xiangqi::chess::{
    ChessTrait, BLACK_LEFT_CAR_ID, BLACK_RIGHT_CAR_ID, RED_LEFT_CAR_ID, RED_RIGHT_CAR_ID,
};
use xiangqi::position::Position;
use xiangqi::vec2d::Vec2d;

fn pos(x: usize, y: usize) -> Position {
    Position { x, y }
}

fn check_options(expected: &[Position], calculated: &[Option<Position>]) {
    let calculated_set: HashSet<Position> =
        calculated.iter().filter_map(|opt| opt.as_ref()).copied().collect();
    for pos in expected {
        assert!(
            calculated_set.contains(pos),
            "calculated does not contains pos: {:?}",
            pos
        );
    }
}

fn live(options: &[Option<Position>], count: usize) -> HashSet<Position> {
    options[..count].iter().map(|o| o.unwrap()).collect()
}

fn options_on(id: i8, from: Position, others: &[(i8, Position)]) -> HashSet<Position> {
    let mut chesses = vec![(id, from)];
    chesses.extend_from_slice(others);
    let board = generate_board(chesses);
    let mut car = Car::new_with_pos(id, from);
    let (options, count) = car.walk_options(&board);
    let set = live(options, count);
    assert_eq!(set.len(), count);
    set
}

#[test]
fn car_empty() {
    // red left car
    let car_id = RED_LEFT_CAR_ID;
    let car_pos = pos(0, 0);
    let board = generate_board(vec![(car_id, car_pos)]);
    let mut car = Car::new(car_id);
    let (walk_options, option_count) = car.walk_options(&board);
    assert_eq!(option_count, 17);
    let expected: [Position; 17] =
        std::array::from_fn(|i| if i < 9 { pos(0, i + 1) } else { pos(i - 8, 0) });
    check_options(&expected, walk_options);
}

#[test]
fn car_unreachable() {
    // red right car
    let car_id = RED_RIGHT_CAR_ID;
    let car_pos = pos(4, 2);
    let board = generate_board(vec![
        (car_id, car_pos),
        (-2, pos(3, 3)),
        (8, pos(7, 7)),
        (11, pos(6, 8)),
        (-6, pos(1, 1)),
    ]);
    let mut car = Car::new_with_pos(car_id, car_pos);
    let (walk_options, option_count) = car.walk_options(&board);
    assert_eq!(option_count, 17);
    let expected: [Position; 17] = std::array::from_fn(|i| {
        if i < 4 {
            pos(i + 5, 2)
        } else if i < 11 {
            pos(4, i - 1)
        } else if i < 15 {
            pos(i - 11, 2)
        } else {
            pos(4, i - 15)
        }
    });
    check_options(&expected, walk_options);
}

#[test]
fn car_enemy() {
    let car_id = BLACK_LEFT_CAR_ID;
    let car_pos = pos(3, 6);
    let board = generate_board(vec![
        (car_id, car_pos),
        (11, pos(2, 6)),
        (3, pos(3, 1)),
        (8, pos(7, 6)),
        (-8, pos(4, 7)),
    ]);
    let mut car = Car::new_with_pos(car_id, car_pos);
    let (walk_options, option_count) = car.walk_options(&board);
    assert_eq!(option_count, 1 + 5 + 4 + 3);
    let expected: [Position; 1 + 5 + 4 + 3] = std::array::from_fn(|i| {
        if i < 1 {
            pos(2, 6)
        } else if i < 1 + 5 {
            pos(3, i)
        } else if i < 1 + 5 + 4 {
            pos(i - 2, 6)
        } else {
            pos(3, i - 3)
        }
    });
    check_options(&expected, walk_options);
}

#[test]
fn car_teammate() {
    let car_id = BLACK_RIGHT_CAR_ID;
    let car_pos = pos(4, 4);
    let board = generate_board(vec![
        (car_id, car_pos),
        (12, pos(4, 3)),  // 1
        (-11, pos(4, 6)), // 1
        (-6, pos(3, 4)),  // 0
    ]);
    let mut car = Car::new_with_pos(car_id, car_pos);
    let (walk_options, option_count) = car.walk_options(&board);
    assert_eq!(option_count, 1 + 1 + 4);
    let expected: [Position; 1 + 1 + 4] = std::array::from_fn(|i| {
        if i < 1 {
            pos(4, 3)
        } else if i < 2 {
            pos(4, 5)
        } else {
            pos(5 + i - 2, 4)
        }
    });
    check_options(&expected, walk_options);
}

#[test]
fn car_homes() {
    let homes = [
        (RED_LEFT_CAR_ID, pos(0, 0)),
        (RED_RIGHT_CAR_ID, pos(8, 0)),
        (BLACK_LEFT_CAR_ID, pos(0, 9)),
        (BLACK_RIGHT_CAR_ID, pos(8, 9)),
    ];
    for (id, home) in homes {
        let board = generate_board(vec![(id, home)]);
        let mut car = Car::new(id);
        let (options, count) = car.walk_options(&board);
        assert_eq!(count, 17);
        let mut expected: HashSet<Position> = HashSet::new();
        for x in 0..9 {
            expected.insert(pos(x, home.y));
        }
        for y in 0..10 {
            expected.insert(pos(home.x, y));
        }
        expected.remove(&home);
        assert_eq!(live(options, count), expected);
    }
}

#[test]
fn car_exact_set_with_pieces_in_the_way() {
    let options = options_on(
        BLACK_LEFT_CAR_ID,
        pos(3, 6),
        &[(11, pos(2, 6)), (3, pos(3, 1)), (8, pos(7, 6)), (-8, pos(4, 7)), (-9, pos(3, 8))],
    );
    let expected: HashSet<Position> = [
        pos(2, 6),
        pos(4, 6),
        pos(5, 6),
        pos(6, 6),
        pos(7, 6),
        pos(3, 7),
        pos(3, 5),
        pos(3, 4),
        pos(3, 3),
        pos(3, 2),
        pos(3, 1),
    ]
    .into_iter()
    .collect();
    assert_eq!(options, expected);
}

#[test]
fn car_hemmed_in() {
    let options = options_on(
        RED_LEFT_CAR_ID,
        pos(4, 4),
        &[(1, pos(5, 4)), (2, pos(3, 4)), (3, pos(4, 5)), (4, pos(4, 3))],
    );
    assert!(options.is_empty());
}

#[test]
fn car_walk_and_twice() {
    let board = generate_board(vec![(RED_LEFT_CAR_ID, pos(0, 0)), (-1, pos(0, 4))]);
    let mut car = Car::new(RED_LEFT_CAR_ID);
    let (options, count) = car.walk_options(&board);
    let first = live(options, count);
    assert_eq!(count, 8 + 4);
    let (options, count) = car.walk_options(&board);
    assert_eq!(count, 8 + 4);
    assert_eq!(live(options, count), first);
    // behind the enemy: not listed
    assert!(!car.walk(Vec2d { x: 0, y: 5 }));
    // off the board
    assert!(!car.walk(Vec2d { x: -1, y: 0 }));
    // not in line
    assert!(!car.walk(Vec2d { x: 1, y: 1 }));
    // onto the enemy
    assert!(car.walk(Vec2d { x: 0, y: 4 }));
    let board = generate_board(vec![(RED_LEFT_CAR_ID, pos(0, 4))]);
    let (options, count) = car.walk_options(&board);
    assert_eq!(count, 17);
    assert!(live(options, count).contains(&pos(0, 0)));
}

#[test]
fn car_names_and_life() {
    let mut red = Car::new(RED_RIGHT_CAR_ID);
    let black = Car::new(BLACK_LEFT_CAR_ID);
    assert_eq!(red.get_name(), '车');
    assert_eq!(black.get_name(), '单');
    assert!(red.is_alive());
    red.killed();
    assert!(!red.is_alive());
}
