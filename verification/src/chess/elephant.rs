use vstd::prelude::*;
use crate::board::{occupant, read_cell, BoardShape};
use crate::chess::{
    can_land, Chess, ChessKind, ChessState, ChessTrait, BLACK_LEFT_ELEPHANT_ID,
    BLACK_RIGHT_ELEPHANT_ID, RED_LEFT_ELEPHANT_ID, RED_RIGHT_ELEPHANT_ID,
};
use crate::position::{intersection_option, lemma_kept_present, Position};
use crate::vec2d::{vec2d, Vec2d};

verus! {

const WALK_OPTIONS_COUNT: usize = 4;

/// The elephant leaps two squares along a diagonal, never leaves the seven
/// squares of its side, and is stopped by a piece on the square it leaps over.
#[derive(Debug, Clone)]
pub struct Elephant(Chess<WALK_OPTIONS_COUNT>);

pub open spec fn is_elephant_id(id: i8) -> bool {
    ||| id == RED_LEFT_ELEPHANT_ID
    ||| id == RED_RIGHT_ELEPHANT_ID
    ||| id == BLACK_LEFT_ELEPHANT_ID
    ||| id == BLACK_RIGHT_ELEPHANT_ID
}

/// Where the elephant `id` stands when a game begins.
pub open spec fn elephant_home(id: i8) -> Position {
    if id == RED_LEFT_ELEPHANT_ID {
        Position { x: 2, y: 0 }
    } else if id == RED_RIGHT_ELEPHANT_ID {
        Position { x: 6, y: 0 }
    } else if id == BLACK_LEFT_ELEPHANT_ID {
        Position { x: 2, y: 9 }
    } else {
        Position { x: 6, y: 9 }
    }
}

pub open spec fn elephant_glyph(id: i8) -> char {
    if id > 0 {
        '相'
    } else {
        '象'
    }
}

/// The squares that an elephant of the side of `id` can ever stand on.
pub open spec fn elephant_squares(id: i8) -> Seq<Position> {
    if id > 0 {
        seq![
            Position { x: 0, y: 2 },
            Position { x: 2, y: 0 },
            Position { x: 2, y: 4 },
            Position { x: 4, y: 2 },
            Position { x: 6, y: 0 },
            Position { x: 6, y: 4 },
            Position { x: 8, y: 2 },
        ]
    } else {
        seq![
            Position { x: 0, y: 7 },
            Position { x: 2, y: 5 },
            Position { x: 2, y: 9 },
            Position { x: 4, y: 7 },
            Position { x: 6, y: 5 },
            Position { x: 6, y: 9 },
            Position { x: 8, y: 7 },
        ]
    }
}

/// A leap of two squares along a diagonal.
pub open spec fn is_elephant_leap(d: Vec2d) -> bool {
    (d.x == 2 || d.x == -2) && (d.y == 2 || d.y == -2)
}

/// The four leaps, in the order in which they are tried.
pub open spec fn elephant_leaps() -> Seq<Vec2d> {
    seq![vec2d(2, 2), vec2d(-2, 2), vec2d(-2, -2), vec2d(2, -2)]
}

/// The step to the eye of the leap `d`: half the leap.
pub open spec fn eye_step(d: Vec2d) -> Vec2d {
    vec2d(d.x / 2, d.y / 2)
}

/// No piece stands on the eye of the leap `d` from `from`.
pub open spec fn eye_free(board: BoardShape, from: Position, d: Vec2d) -> bool {
    match from.offset(eye_step(d)) {
        Some(eye) => occupant(board, eye) == 0,
        None => true,
    }
}

/// The elephant `id` on `from` may move to `to`.
pub open spec fn elephant_may_go(board: BoardShape, id: i8, from: Position, to: Position) -> bool {
    &&& to.on_board()
    &&& is_elephant_leap(from.displacement(to))
    &&& eye_free(board, from, from.displacement(to))
    &&& elephant_squares(id).contains(to)
    &&& can_land(board, id, to)
}

/// Where the leap `d` from `from` ends, if its eye is free and it stays on
/// the board.
pub open spec fn elephant_landing(board: BoardShape, from: Position, d: Vec2d) -> Option<
    Position,
> {
    if eye_free(board, from, d) {
        from.offset(d)
    } else {
        None
    }
}

fn leap_table() -> (table: [Vec2d; 4])
    ensures
        table@ == elephant_leaps(),
{
    [
        Vec2d { x: 2, y: 2 },
        Vec2d { x: -2, y: 2 },
        Vec2d { x: -2, y: -2 },
        Vec2d { x: 2, y: -2 },
    ]
}

/// The steps to the eyes, each at the index of its leap.
fn eye_table() -> (table: [Vec2d; 4])
    ensures
        table@.len() == 4,
        forall|i: int| 0 <= i < 4 ==> table@[i] == eye_step(elephant_leaps()[i]),
{
    [Vec2d { x: 1, y: 1 }, Vec2d { x: -1, y: 1 }, Vec2d { x: -1, y: -1 }, Vec2d { x: 1, y: -1 }]
}

fn square_table(id: i8) -> (table: [Position; 7])
    ensures
        table@ == elephant_squares(id),
{
    if id > 0 {
        [
            Position { x: 0, y: 2 },
            Position { x: 2, y: 0 },
            Position { x: 2, y: 4 },
            Position { x: 4, y: 2 },
            Position { x: 6, y: 0 },
            Position { x: 6, y: 4 },
            Position { x: 8, y: 2 },
        ]
    } else {
        [
            Position { x: 0, y: 7 },
            Position { x: 2, y: 5 },
            Position { x: 2, y: 9 },
            Position { x: 4, y: 7 },
            Position { x: 6, y: 5 },
            Position { x: 6, y: 9 },
            Position { x: 8, y: 7 },
        ]
    }
}

impl Elephant {
    /// The elephant `id` on its home square.
    pub fn new(id: i8) -> (elephant: Self)
        requires
            is_elephant_id(id),
        ensures
            elephant.well_formed(),
            elephant.ident() == id,
            elephant.position() == elephant_home(id),
            elephant.alive(),
            elephant.glyph() == elephant_glyph(id),
            elephant.count() == 0,
    {
        let pos = if id == RED_LEFT_ELEPHANT_ID {
            Position { x: 2, y: 0 }
        } else if id == RED_RIGHT_ELEPHANT_ID {
            Position { x: 6, y: 0 }
        } else if id == BLACK_LEFT_ELEPHANT_ID {
            Position { x: 2, y: 9 }
        } else {
            Position { x: 6, y: 9 }
        };
        let name = if id > 0 {
            '相'
        } else {
            '象'
        };
        Elephant(Chess::new(ChessKind::Elephant, id, true, pos, name))
    }

    /// The elephant `id` on `pos`.
    pub fn new_with_pos(id: i8, pos: Position) -> (elephant: Self)
        requires
            is_elephant_id(id),
            pos.on_board(),
        ensures
            elephant.well_formed(),
            elephant.ident() == id,
            elephant.position() == pos,
            elephant.alive(),
            elephant.glyph() == elephant_glyph(id),
            elephant.count() == 0,
    {
        let name = if id > 0 {
            '相'
        } else {
            '象'
        };
        Elephant(Chess::new(ChessKind::Elephant, id, true, pos, name))
    }
}

impl ChessState for Elephant {
    closed spec fn well_formed(&self) -> bool {
        &&& self.0.buffer_ok()
        &&& self.0.kind() == ChessKind::Elephant
        &&& is_elephant_id(self.0.ident())
        &&& self.0.position().on_board()
        &&& self.0.glyph() == elephant_glyph(self.0.ident())
    }

    closed spec fn ident(&self) -> i8 {
        self.0.ident()
    }

    closed spec fn position(&self) -> Position {
        self.0.position()
    }

    closed spec fn alive(&self) -> bool {
        self.0.alive()
    }

    closed spec fn glyph(&self) -> char {
        self.0.glyph()
    }

    closed spec fn buffer(&self) -> Seq<Option<Position>> {
        self.0.buffer()
    }

    closed spec fn count(&self) -> nat {
        self.0.count()
    }

    open spec fn targets(id: i8, from: Position, board: BoardShape) -> Set<Position> {
        Set::new(|to: Position| elephant_may_go(board, id, from, to))
    }
}

impl ChessTrait for Elephant {
    fn killed(&mut self) {
        self.0.killed();
    }

    fn is_alive(&self) -> (alive: bool) {
        self.0.is_alive()
    }

    fn get_name(&self) -> (name: char) {
        self.0.get_name()
    }

    fn walk_options<'a>(&'a mut self, board_status: &BoardShape) -> (r: (
        &'a [Option<Position>],
        usize,
    )) {
        let id = self.0.id();
        let cur_pos = self.0.pos();
        let optional_positions = square_table(id);
        let leaps = leap_table();
        let eyes = eye_table();

        let mut reachable_positions: [Option<Position>; 4] = [None;4];
        let mut i: usize = 0;
        while i < 4
            invariant
                i <= 4,
                cur_pos.on_board(),
                leaps@ == elephant_leaps(),
                eyes@.len() == 4,
                forall|j: int| 0 <= j < 4 ==> eyes@[j] == eye_step(elephant_leaps()[j]),
                forall|j: int|
                    0 <= j < i ==> reachable_positions@[j] == elephant_landing(
                        *board_status,
                        cur_pos,
                        elephant_leaps()[j],
                    ),
            decreases 4 - i,
        {
            let blocked = match cur_pos.checked_add_vec2d(eyes[i]) {
                Some(eye) => read_cell(board_status, eye) != 0,
                None => false,
            };
            reachable_positions[i] = if blocked {
                None
            } else {
                cur_pos.checked_add_vec2d(leaps[i])
            };
            i += 1;
        }
        let walkable_positions = intersection_option(&optional_positions, &reachable_positions);
        proof {
            lemma_kept_present(optional_positions@, reachable_positions@);
        }

        self.0.offer_all(board_status, &walkable_positions);
        proof {
            assert forall|to: Position|
                self.0.candidates().contains(to) <==> elephant_may_go(
                    *board_status,
                    id,
                    cur_pos,
                    to,
                ) by {
                lemma_reachable(*board_status, cur_pos, reachable_positions@, to);
                assert(self.0.candidates().contains(to) <==> walkable_positions@.contains(to)
                    && can_land(*board_status, id, to));
            }
            assert(self.0.candidates() =~= Self::targets(id, cur_pos, *board_status));
            self.0.lemma_count_is_len();
        }
        self.0.options()
    }

    fn walk(&mut self, direction: Vec2d) -> (moved: bool) {
        self.0.commit(direction)
    }
}

/// The landings of the four leaps hold `to` exactly where a leap with a free
/// eye leads there.
proof fn lemma_reachable(
    board: BoardShape,
    from: Position,
    reachable: Seq<Option<Position>>,
    to: Position,
)
    requires
        from.on_board(),
        reachable.len() == 4,
        forall|j: int|
            0 <= j < 4 ==> reachable[j] == elephant_landing(board, from, elephant_leaps()[j]),
    ensures
        reachable.contains(Some(to)) <==> {
            &&& to.on_board()
            &&& is_elephant_leap(from.displacement(to))
            &&& eye_free(board, from, from.displacement(to))
        },
{
    let d = from.displacement(to);
    if to.on_board() && is_elephant_leap(d) && eye_free(board, from, d) {
        let j: int = if d.x == 2 && d.y == 2 {
            0
        } else if d.x == -2 && d.y == 2 {
            1
        } else if d.x == -2 && d.y == -2 {
            2
        } else {
            3
        };
        assert(reachable[j] == Some(to));
    }
}

/// A piece put on the eye of one leap takes the square where that leap ends
/// from the elephant's destinations and changes nothing else, whatever
/// stands on that square. `blocked` is `board` with a piece on `eye`.
pub proof fn lemma_elephant_eye(
    board: BoardShape,
    blocked: BoardShape,
    id: i8,
    from: Position,
    d: Vec2d,
    eye: Position,
)
    requires
        from.on_board(),
        is_elephant_leap(d),
        from.offset(eye_step(d)) == Some(eye),
        occupant(board, eye) == 0,
        occupant(blocked, eye) != 0,
        forall|p: Position|
            p.on_board() && p != eye ==> #[trigger] occupant(blocked, p) == occupant(board, p),
    ensures
        match from.offset(d) {
            Some(landing) => Elephant::targets(id, from, blocked) == Elephant::targets(
                id,
                from,
                board,
            ).remove(landing),
            None => Elephant::targets(id, from, blocked) == Elephant::targets(id, from, board),
        },
{
}

} // verus!
