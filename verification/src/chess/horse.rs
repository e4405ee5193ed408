use vstd::prelude::*;
use crate::board::{occupant, read_cell, BoardShape};
use crate::chess::{
    can_land, Chess, ChessKind, ChessState, ChessTrait, BLACK_LEFT_HORSE_ID, BLACK_RIGHT_HORSE_ID,
    RED_LEFT_HORSE_ID, RED_RIGHT_HORSE_ID,
};
use crate::position::Position;
use crate::vec2d::{vec2d, Vec2d};

verus! {

const WALK_OPTIONS_COUNT: usize = 8;

/// The horse leaps two squares along a row or a column and one to the side,
/// and is stopped by a piece on the first square of the long part: its leg.
#[derive(Debug, Clone)]
pub struct Horse(Chess<WALK_OPTIONS_COUNT>);

pub open spec fn is_horse_id(id: i8) -> bool {
    ||| id == RED_LEFT_HORSE_ID
    ||| id == RED_RIGHT_HORSE_ID
    ||| id == BLACK_LEFT_HORSE_ID
    ||| id == BLACK_RIGHT_HORSE_ID
}

/// Where the horse `id` stands when a game begins.
pub open spec fn horse_home(id: i8) -> Position {
    if id == RED_LEFT_HORSE_ID {
        Position { x: 1, y: 0 }
    } else if id == RED_RIGHT_HORSE_ID {
        Position { x: 7, y: 0 }
    } else if id == BLACK_LEFT_HORSE_ID {
        Position { x: 1, y: 9 }
    } else {
        Position { x: 7, y: 9 }
    }
}

pub open spec fn horse_glyph(id: i8) -> char {
    if id > 0 {
        '马'
    } else {
        '馬'
    }
}

/// Two squares one way and one square the other.
pub open spec fn is_horse_leap(d: Vec2d) -> bool {
    ||| (d.x == 2 || d.x == -2) && (d.y == 1 || d.y == -1)
    ||| (d.x == 1 || d.x == -1) && (d.y == 2 || d.y == -2)
}

/// The eight leaps, in the order in which they are tried.
pub open spec fn horse_leaps() -> Seq<Vec2d> {
    seq![
        vec2d(2, 1),
        vec2d(1, 2),
        vec2d(-2, 1),
        vec2d(-1, -2),
        vec2d(2, -1),
        vec2d(-1, 2),
        vec2d(-2, -1),
        vec2d(1, -2),
    ]
}

/// The step to the leg of the leap `d`: one square along its long part.
pub open spec fn leg_step(d: Vec2d) -> Vec2d {
    if d.x == 2 || d.x == -2 {
        vec2d(d.x / 2, 0)
    } else {
        vec2d(0, d.y / 2)
    }
}

/// No piece stands on the leg of the leap `d` from `from`.
pub open spec fn leg_free(board: BoardShape, from: Position, d: Vec2d) -> bool {
    match from.offset(leg_step(d)) {
        Some(leg) => occupant(board, leg) == 0,
        None => true,
    }
}

/// The horse `id` on `from` may move to `to`.
pub open spec fn horse_may_go(board: BoardShape, id: i8, from: Position, to: Position) -> bool {
    &&& to.on_board()
    &&& is_horse_leap(from.displacement(to))
    &&& leg_free(board, from, from.displacement(to))
    &&& can_land(board, id, to)
}

/// The place of `d` among the leaps, and their number where it is none.
spec fn leap_index(d: Vec2d) -> int {
    if d == vec2d(2, 1) {
        0
    } else if d == vec2d(1, 2) {
        1
    } else if d == vec2d(-2, 1) {
        2
    } else if d == vec2d(-1, -2) {
        3
    } else if d == vec2d(2, -1) {
        4
    } else if d == vec2d(-1, 2) {
        5
    } else if d == vec2d(-2, -1) {
        6
    } else if d == vec2d(1, -2) {
        7
    } else {
        8
    }
}

fn leap_table() -> (table: [Vec2d; 8])
    ensures
        table@ == horse_leaps(),
{
    [
        Vec2d { x: 2, y: 1 },
        Vec2d { x: 1, y: 2 },
        Vec2d { x: -2, y: 1 },
        Vec2d { x: -1, y: -2 },
        Vec2d { x: 2, y: -1 },
        Vec2d { x: -1, y: 2 },
        Vec2d { x: -2, y: -1 },
        Vec2d { x: 1, y: -2 },
    ]
}

/// The steps to the legs: the leap at index `i` has its leg at `i % 4`.
fn leg_table() -> (table: [Vec2d; 4])
    ensures
        table@.len() == 4,
        forall|i: int| 0 <= i < 8 ==> table@[i % 4] == leg_step(#[trigger] horse_leaps()[i]),
{
    [Vec2d { x: 1, y: 0 }, Vec2d { x: 0, y: 1 }, Vec2d { x: -1, y: 0 }, Vec2d { x: 0, y: -1 }]
}

impl Horse {
    /// The horse `id` on its home square.
    pub fn new(id: i8) -> (horse: Self)
        requires
            is_horse_id(id),
        ensures
            horse.well_formed(),
            horse.ident() == id,
            horse.position() == horse_home(id),
            horse.alive(),
            horse.glyph() == horse_glyph(id),
            horse.count() == 0,
    {
        let pos = if id == RED_LEFT_HORSE_ID {
            Position { x: 1, y: 0 }
        } else if id == RED_RIGHT_HORSE_ID {
            Position { x: 7, y: 0 }
        } else if id == BLACK_LEFT_HORSE_ID {
            Position { x: 1, y: 9 }
        } else {
            Position { x: 7, y: 9 }
        };
        let name = if id > 0 {
            '马'
        } else {
            '馬'
        };
        Horse(Chess::new(ChessKind::Horse, id, true, pos, name))
    }

    /// The horse `id` on `pos`.
    pub fn new_with_pos(id: i8, pos: Position) -> (horse: Self)
        requires
            is_horse_id(id),
            pos.on_board(),
        ensures
            horse.well_formed(),
            horse.ident() == id,
            horse.position() == pos,
            horse.alive(),
            horse.glyph() == horse_glyph(id),
            horse.count() == 0,
    {
        let name = if id > 0 {
            '马'
        } else {
            '馬'
        };
        Horse(Chess::new(ChessKind::Horse, id, true, pos, name))
    }
}

impl ChessState for Horse {
    closed spec fn well_formed(&self) -> bool {
        &&& self.0.buffer_ok()
        &&& self.0.kind() == ChessKind::Horse
        &&& is_horse_id(self.0.ident())
        &&& self.0.position().on_board()
        &&& self.0.glyph() == horse_glyph(self.0.ident())
    }

    closed spec fn ident(&self) -> i8 {
        self.0.ident()
    }

    closed spec fn position(&self) -> Position {
        self.0.position()
    }

    closed spec fn alive(&self) -> bool {
        self.0.alive()
    }

    closed spec fn glyph(&self) -> char {
        self.0.glyph()
    }

    closed spec fn buffer(&self) -> Seq<Option<Position>> {
        self.0.buffer()
    }

    closed spec fn count(&self) -> nat {
        self.0.count()
    }

    open spec fn targets(id: i8, from: Position, board: BoardShape) -> Set<Position> {
        Set::new(|to: Position| horse_may_go(board, id, from, to))
    }
}

impl ChessTrait for Horse {
    fn killed(&mut self) {
        self.0.killed();
    }

    fn is_alive(&self) -> (alive: bool) {
        self.0.is_alive()
    }

    fn get_name(&self) -> (name: char) {
        self.0.get_name()
    }

    fn walk_options<'a>(&'a mut self, board_status: &BoardShape) -> (r: (
        &'a [Option<Position>],
        usize,
    )) {
        let id = self.0.id();
        let cur_pos = self.0.pos();
        let leaps = leap_table();
        let legs = leg_table();

        let mut potential_obstacles_exists: [bool; 4] = [false;4];
        let mut n: usize = 0;
        while n < 4
            invariant
                n <= 4,
                cur_pos.on_board(),
                legs@.len() == 4,
                forall|j: int|
                    0 <= j < n ==> potential_obstacles_exists@[j] == (match cur_pos.offset(
                        legs@[j],
                    ) {
                        Some(leg) => occupant(*board_status, leg) != 0,
                        None => false,
                    }),
            decreases 4 - n,
        {
            potential_obstacles_exists[n] = match cur_pos.checked_add_vec2d(legs[n]) {
                Some(obstacle) => read_cell(board_status, obstacle) != 0,
                None => false,
            };
            n += 1;
        }

        self.0.clear_options();
        let mut i: usize = 0;
        while i < 8
            invariant
                i <= 8,
                cur_pos.on_board(),
                id != 0,
                leaps@ == horse_leaps(),
                forall|j: int|
                    0 <= j < 8 ==> potential_obstacles_exists@[j % 4] == !leg_free(
                        *board_status,
                        cur_pos,
                        #[trigger] horse_leaps()[j],
                    ),
                self.0.buffer_ok(),
                self.0.same_but_options(&old(self).0),
                self.0.ident() == id,
                self.0.count() <= i,
                forall|p: Position|
                    #[trigger] self.0.candidates().contains(p) <==> horse_may_go(
                        *board_status,
                        id,
                        cur_pos,
                        p,
                    ) && leap_index(cur_pos.displacement(p)) < i,
            decreases 8 - i,
        {
            if !potential_obstacles_exists[i % 4] {
                if let Some(pos) = cur_pos.checked_add_vec2d(leaps[i]) {
                    self.0.offer(board_status, pos);
                }
            }
            i += 1;
        }
        proof {
            assert(self.0.candidates() =~= Self::targets(id, cur_pos, *board_status));
            self.0.lemma_count_is_len();
        }
        self.0.options()
    }

    fn walk(&mut self, direction: Vec2d) -> (moved: bool) {
        self.0.commit(direction)
    }
}

/// The other leap that passes over the leg of `d`.
pub open spec fn leg_sibling(d: Vec2d) -> Vec2d {
    if d.x == 2 || d.x == -2 {
        vec2d(d.x as int, -d.y)
    } else {
        vec2d(-d.x, d.y as int)
    }
}

/// The squares `open_squares` without the square, if there is one, that `d`
/// leads to from `from`.
pub open spec fn without_landing(open_squares: Set<Position>, from: Position, d: Vec2d) -> Set<
    Position,
> {
    match from.offset(d) {
        Some(landing) => open_squares.remove(landing),
        None => open_squares,
    }
}

/// A piece put on the leg of a leap takes the squares where the two leaps
/// over that leg end from the horse's destinations, and changes nothing
/// else. `blocked` is `board` with a piece on `leg`.
pub proof fn lemma_horse_leg_closes_both(
    board: BoardShape,
    blocked: BoardShape,
    id: i8,
    from: Position,
    d: Vec2d,
    leg: Position,
)
    requires
        from.on_board(),
        is_horse_leap(d),
        from.offset(leg_step(d)) == Some(leg),
        occupant(board, leg) == 0,
        occupant(blocked, leg) != 0,
        forall|p: Position|
            p.on_board() && p != leg ==> #[trigger] occupant(blocked, p) == occupant(board, p),
    ensures
        Horse::targets(id, from, blocked) == without_landing(
            without_landing(Horse::targets(id, from, board), from, d),
            from,
            leg_sibling(d),
        ),
{
}

/// A piece put on the leg of a leap takes the square where that leap ends
/// from the horse's destinations and no other, where the other leap over
/// that leg was not open before. `blocked` is `board` with a piece on `leg`.
pub proof fn lemma_horse_leg(
    board: BoardShape,
    blocked: BoardShape,
    id: i8,
    from: Position,
    d: Vec2d,
    leg: Position,
)
    requires
        from.on_board(),
        is_horse_leap(d),
        from.offset(leg_step(d)) == Some(leg),
        occupant(board, leg) == 0,
        occupant(blocked, leg) != 0,
        forall|p: Position|
            p.on_board() && p != leg ==> #[trigger] occupant(blocked, p) == occupant(board, p),
        from.offset(leg_sibling(d)) matches Some(other) ==> !Horse::targets(
            id,
            from,
            board,
        ).contains(other),
    ensures
        Horse::targets(id, from, blocked) == without_landing(
            Horse::targets(id, from, board),
            from,
            d,
        ),
{
}

} // verus!
