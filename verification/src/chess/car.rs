use vstd::prelude::*;
use crate::board::{clear_between, occupant, read_cell, BoardShape};
use crate::chess::{
    can_land, direction_index, direction_table, room_before, same_side, straight_directions,
    Chess, ChessKind, ChessState, ChessTrait, BLACK_LEFT_CAR_ID, BLACK_RIGHT_CAR_ID,
    RED_LEFT_CAR_ID, RED_RIGHT_CAR_ID,
};
use crate::position::{lemma_between_along, strictly_between, Position};
use crate::vec2d::{is_straight_step, Vec2d};

verus! {

const MAX_WALK_OPTIONS_COUNT: usize = 17;

/// The car slides along its row and its column as far as the squares are
/// free, and may take the first enemy in its way.
#[derive(Debug, Clone)]
pub struct Car(Chess<MAX_WALK_OPTIONS_COUNT>);

pub open spec fn is_car_id(id: i8) -> bool {
    ||| id == RED_LEFT_CAR_ID
    ||| id == RED_RIGHT_CAR_ID
    ||| id == BLACK_LEFT_CAR_ID
    ||| id == BLACK_RIGHT_CAR_ID
}

/// Where the car `id` stands when a game begins.
pub open spec fn car_home(id: i8) -> Position {
    if id == RED_LEFT_CAR_ID {
        Position { x: 0, y: 0 }
    } else if id == RED_RIGHT_CAR_ID {
        Position { x: 8, y: 0 }
    } else if id == BLACK_LEFT_CAR_ID {
        Position { x: 0, y: 9 }
    } else {
        Position { x: 8, y: 9 }
    }
}

pub open spec fn car_glyph(id: i8) -> char {
    if id > 0 {
        '车'
    } else {
        '单'
    }
}

/// The car `id` on `from` may move to `to`.
pub open spec fn car_may_go(board: BoardShape, id: i8, from: Position, to: Position) -> bool {
    &&& to.on_board()
    &&& from.in_line(to)
    &&& clear_between(board, from, to)
    &&& can_land(board, id, to)
}

impl Car {
    /// The car `id` on its home square.
    pub fn new(id: i8) -> (car: Self)
        requires
            is_car_id(id),
        ensures
            car.well_formed(),
            car.ident() == id,
            car.position() == car_home(id),
            car.alive(),
            car.glyph() == car_glyph(id),
            car.count() == 0,
    {
        let pos = if id == RED_LEFT_CAR_ID {
            Position { x: 0, y: 0 }
        } else if id == RED_RIGHT_CAR_ID {
            Position { x: 8, y: 0 }
        } else if id == BLACK_LEFT_CAR_ID {
            Position { x: 0, y: 9 }
        } else {
            Position { x: 8, y: 9 }
        };
        let name = if id > 0 {
            '车'
        } else {
            '单'
        };
        Car(Chess::new(ChessKind::Car, id, true, pos, name))
    }

    /// The car `id` on `pos`.
    pub fn new_with_pos(id: i8, pos: Position) -> (car: Self)
        requires
            is_car_id(id),
            pos.on_board(),
        ensures
            car.well_formed(),
            car.ident() == id,
            car.position() == pos,
            car.alive(),
            car.glyph() == car_glyph(id),
            car.count() == 0,
    {
        let name = if id > 0 {
            '车'
        } else {
            '单'
        };
        Car(Chess::new(ChessKind::Car, id, true, pos, name))
    }

    /// Adds the destinations that lie in one direction.
    fn slide(&mut self, board_status: &BoardShape, direction: Vec2d)
        requires
            old(self).well_formed(),
            is_straight_step(direction),
            old(self).0.count() + old(self).0.position().room(direction)
                <= MAX_WALK_OPTIONS_COUNT,
            forall|p: Position| #[trigger]
                old(self).0.candidates().contains(p) ==> old(self).0.position().steps_along(
                    direction,
                    p,
                ) == 0,
        ensures
            final(self).well_formed(),
            final(self).0.same_but_options(&old(self).0),
            final(self).0.count() <= old(self).0.count() + old(self).0.position().room(
                direction,
            ),
            forall|p: Position| #[trigger]
                final(self).0.candidates().contains(p) <==> old(self).0.candidates().contains(p)
                    || (car_may_go(*board_status, old(self).0.ident(), old(self).0.position(), p)
                    && old(self).0.position().steps_along(direction, p) >= 1),
    {
        let id = self.0.id();
        let cur_pos = self.0.pos();
        let ghost before = self.0.candidates();
        let ghost start = self.0.count();
        let mut new_pos = cur_pos;
        let ghost mut k: int = 0;
        loop
            invariant_except_break
                0 <= k <= cur_pos.room(direction),
                if k == 0 {
                    new_pos == cur_pos
                } else {
                    new_pos.on_board() && cur_pos.steps_along(direction, new_pos) == k
                },
                self.0.count() == start + k,
                forall|p: Position|
                    1 <= #[trigger] cur_pos.steps_along(direction, p) <= k ==> occupant(
                        *board_status,
                        p,
                    ) == 0,
                forall|p: Position| #[trigger]
                    self.0.candidates().contains(p) <==> before.contains(p) || 1
                        <= cur_pos.steps_along(direction, p) <= k,
            invariant
                cur_pos.on_board(),
                is_straight_step(direction),
                is_car_id(id),
                self.0.ident() == id,
                self.0.position() == cur_pos,
                self.0.buffer_ok(),
                self.0.same_but_options(&old(self).0),
                start + cur_pos.room(direction) <= MAX_WALK_OPTIONS_COUNT,
                forall|p: Position| #[trigger]
                    before.contains(p) ==> cur_pos.steps_along(direction, p) == 0,
            ensures
                self.0.count() <= start + cur_pos.room(direction),
                forall|p: Position| #[trigger]
                    self.0.candidates().contains(p) <==> before.contains(p) || (car_may_go(
                        *board_status,
                        id,
                        cur_pos,
                        p,
                    ) && cur_pos.steps_along(direction, p) >= 1),
            decreases cur_pos.room(direction) - k,
        {
            proof {
                assert forall|p: Position| 1 <= cur_pos.steps_along(direction, p) <= k implies (
                car_may_go(*board_status, id, cur_pos, p)) by {
                    lemma_walked(*board_status, id, cur_pos, direction, k, p);
                }
            }
            match new_pos.checked_add_vec2d(direction) {
                Some(new_pos_) => {
                    proof {
                        // the next square is the only one a step further, what
                        // lies behind it is out of reach where it is taken, and
                        // all before it is free
                        assert(forall|p: Position|
                            cur_pos.steps_along(direction, p) == k + 1 ==> p == new_pos_);
                        assert forall|p: Position|
                            cur_pos.steps_along(direction, p) > k + 1 implies !car_may_go(
                            *board_status,
                            id,
                            cur_pos,
                            p,
                        ) || occupant(*board_status, new_pos_) == 0 by {
                            lemma_between_along(cur_pos, direction, new_pos_, p);
                        }
                        assert forall|q: Position|
                            strictly_between(cur_pos, q, new_pos_) implies occupant(
                            *board_status,
                            q,
                        ) == 0 by {
                            lemma_between_along(cur_pos, direction, q, new_pos_);
                        }
                    }
                    let other = read_cell(board_status, new_pos_);
                    if other == 0 || !same_side(id, other) {
                        // nobody or an enemy here, can walk
                        new_pos = new_pos_;
                        self.0.add_option(new_pos);
                        if other != 0 {
                            // an enemy here: can walk to here, but no further
                            break ;
                        }
                        proof {
                            k = k + 1;
                        }
                    } else {
                        // a piece of the same side here, unable to walk
                        break ;
                    }
                },
                None => {
                    break ;
                },
            }
        }
    }
}

/// A square along `d` from `from` is open to the car where all squares up to
/// it are free.
proof fn lemma_walked(board: BoardShape, id: i8, from: Position, d: Vec2d, k: int, p: Position)
    requires
        from.on_board(),
        is_straight_step(d),
        1 <= from.steps_along(d, p) <= k <= from.room(d),
        forall|q: Position|
            1 <= #[trigger] from.steps_along(d, q) <= k ==> occupant(board, q) == 0,
    ensures
        car_may_go(board, id, from, p),
{
    assert forall|q: Position| strictly_between(from, q, p) implies occupant(board, q) == 0 by {
        lemma_between_along(from, d, q, p);
    }
}

impl ChessState for Car {
    closed spec fn well_formed(&self) -> bool {
        &&& self.0.buffer_ok()
        &&& self.0.kind() == ChessKind::Car
        &&& is_car_id(self.0.ident())
        &&& self.0.position().on_board()
        &&& self.0.glyph() == car_glyph(self.0.ident())
    }

    closed spec fn ident(&self) -> i8 {
        self.0.ident()
    }

    closed spec fn position(&self) -> Position {
        self.0.position()
    }

    closed spec fn alive(&self) -> bool {
        self.0.alive()
    }

    closed spec fn glyph(&self) -> char {
        self.0.glyph()
    }

    closed spec fn buffer(&self) -> Seq<Option<Position>> {
        self.0.buffer()
    }

    closed spec fn count(&self) -> nat {
        self.0.count()
    }

    open spec fn targets(id: i8, from: Position, board: BoardShape) -> Set<Position> {
        Set::new(|to: Position| car_may_go(board, id, from, to))
    }
}

impl ChessTrait for Car {
    fn killed(&mut self) {
        self.0.killed();
    }

    fn is_alive(&self) -> (alive: bool) {
        self.0.is_alive()
    }

    fn get_name(&self) -> (name: char) {
        self.0.get_name()
    }

    fn walk_options<'a>(&'a mut self, board_status: &BoardShape) -> (r: (
        &'a [Option<Position>],
        usize,
    )) {
        let id = self.0.id();
        let cur_pos = self.0.pos();
        let directions = direction_table();
        self.0.clear_options();
        let mut i: usize = 0;
        while i < 4
            invariant
                i <= 4,
                directions@ == straight_directions(),
                self.well_formed(),
                self.0.same_but_options(&old(self).0),
                self.0.ident() == id,
                self.0.position() == cur_pos,
                self.0.count() <= room_before(cur_pos, i as int),
                forall|p: Position| #[trigger]
                    self.0.candidates().contains(p) <==> car_may_go(
                        *board_status,
                        id,
                        cur_pos,
                        p,
                    ) && direction_index(cur_pos.heading(p)) < i,
            decreases 4 - i,
        {
            let direction = directions[i];
            self.slide(board_status, direction);
            i += 1;
        }
        proof {
            assert(self.0.candidates() =~= Self::targets(id, cur_pos, *board_status));
            self.0.lemma_count_is_len();
        }
        self.0.options()
    }

    fn walk(&mut self, direction: Vec2d) -> (moved: bool) {
        self.0.commit(direction)
    }
}

} // verus!
