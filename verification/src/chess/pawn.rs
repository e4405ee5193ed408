use vstd::prelude::*;
use crate::board::BoardShape;
use crate::chess::{
    can_land, Chess, ChessKind, ChessState, ChessTrait, BLACK_LEFTEST_PAWN_ID,
    BLACK_MIDDLE_LEFT_PAWN_ID, BLACK_MIDDLE_PAWN_ID, BLACK_MIDDLE_RIGHT_PAWN_ID,
    BLACK_RIGHTEST_PAWN_ID, RED_LEFTEST_PAWN_ID, RED_MIDDLE_LEFT_PAWN_ID, RED_MIDDLE_PAWN_ID,
    RED_MIDDLE_RIGHT_PAWN_ID, RED_RIGHTEST_PAWN_ID,
};
use crate::position::Position;
use crate::vec2d::{vec2d, Vec2d};

verus! {

const WALK_OPTIONS_COUNT: usize = 3;

/// The pawn takes one step forward, towards the other side of the board;
/// once it has crossed the river it may also step to the left or the right.
#[derive(Debug, Clone)]
pub struct Pawn(Chess<WALK_OPTIONS_COUNT>);

pub open spec fn is_pawn_id(id: i8) -> bool {
    RED_MIDDLE_PAWN_ID <= id <= RED_RIGHTEST_PAWN_ID || BLACK_RIGHTEST_PAWN_ID <= id
        <= BLACK_MIDDLE_PAWN_ID
}

/// Where the pawn `id` stands when a game begins.
pub open spec fn pawn_home(id: i8) -> Position {
    let x: usize = if id == RED_MIDDLE_PAWN_ID || id == BLACK_MIDDLE_PAWN_ID {
        4
    } else if id == RED_MIDDLE_LEFT_PAWN_ID || id == BLACK_MIDDLE_LEFT_PAWN_ID {
        2
    } else if id == RED_MIDDLE_RIGHT_PAWN_ID || id == BLACK_MIDDLE_RIGHT_PAWN_ID {
        6
    } else if id == RED_LEFTEST_PAWN_ID || id == BLACK_LEFTEST_PAWN_ID {
        0
    } else {
        8
    };
    if id > 0 {
        Position { x, y: 3 }
    } else {
        Position { x, y: 6 }
    }
}

pub open spec fn pawn_glyph(id: i8) -> char {
    if id > 0 {
        '兵'
    } else {
        '卒'
    }
}

/// The step forward for the side of `id`.
pub open spec fn pawn_forward(id: i8) -> Vec2d {
    if id > 0 {
        vec2d(0, 1)
    } else {
        vec2d(0, -1)
    }
}

/// A pawn of the side of `id` on `from` is beyond the river.
pub open spec fn crossed_river(id: i8, from: Position) -> bool {
    if id > 0 {
        from.y >= 5
    } else {
        from.y <= 4
    }
}

/// One step to the left or to the right.
pub open spec fn is_sideways(d: Vec2d) -> bool {
    d.y == 0 && (d.x == 1 || d.x == -1)
}

/// A step that the pawn `id` on `from` may try.
pub open spec fn is_pawn_step(id: i8, from: Position, d: Vec2d) -> bool {
    d == pawn_forward(id) || (crossed_river(id, from) && is_sideways(d))
}

/// The pawn `id` on `from` may move to `to`.
pub open spec fn pawn_may_go(board: BoardShape, id: i8, from: Position, to: Position) -> bool {
    &&& to.on_board()
    &&& is_pawn_step(id, from, from.displacement(to))
    &&& can_land(board, id, to)
}

/// The three steps of a pawn beyond the river, the step forward in the middle.
pub open spec fn pawn_steps(id: i8) -> Seq<Vec2d> {
    seq![vec2d(1, 0), pawn_forward(id), vec2d(-1, 0)]
}

/// The place of `d` among the three steps, and their number where it is none.
spec fn step_index(id: i8, d: Vec2d) -> int {
    if d == vec2d(1, 0) {
        0
    } else if d == pawn_forward(id) {
        1
    } else if d == vec2d(-1, 0) {
        2
    } else {
        3
    }
}

fn step_table(id: i8) -> (table: [Vec2d; 3])
    ensures
        table@ == pawn_steps(id),
{
    if id > 0 {
        [Vec2d { x: 1, y: 0 }, Vec2d { x: 0, y: 1 }, Vec2d { x: -1, y: 0 }]
    } else {
        [Vec2d { x: 1, y: 0 }, Vec2d { x: 0, y: -1 }, Vec2d { x: -1, y: 0 }]
    }
}

fn home_of(id: i8) -> (pos: Position)
    requires
        is_pawn_id(id),
    ensures
        pos == pawn_home(id),
        pos.on_board(),
{
    let x: usize = if id == RED_MIDDLE_PAWN_ID || id == BLACK_MIDDLE_PAWN_ID {
        4
    } else if id == RED_MIDDLE_LEFT_PAWN_ID || id == BLACK_MIDDLE_LEFT_PAWN_ID {
        2
    } else if id == RED_MIDDLE_RIGHT_PAWN_ID || id == BLACK_MIDDLE_RIGHT_PAWN_ID {
        6
    } else if id == RED_LEFTEST_PAWN_ID || id == BLACK_LEFTEST_PAWN_ID {
        0
    } else {
        8
    };
    if id > 0 {
        Position { x, y: 3 }
    } else {
        Position { x, y: 6 }
    }
}

impl Pawn {
    /// The pawn `id` on its home square.
    pub fn new(id: i8) -> (pawn: Self)
        requires
            is_pawn_id(id),
        ensures
            pawn.well_formed(),
            pawn.ident() == id,
            pawn.position() == pawn_home(id),
            pawn.alive(),
            pawn.glyph() == pawn_glyph(id),
            pawn.count() == 0,
    {
        let pos = home_of(id);
        let name = if id > 0 {
            '兵'
        } else {
            '卒'
        };
        Pawn(Chess::new(ChessKind::Pawn, id, true, pos, name))
    }

    /// The pawn `id` on `pos`.
    pub fn new_with_pos(id: i8, pos: Position) -> (pawn: Self)
        requires
            is_pawn_id(id),
            pos.on_board(),
        ensures
            pawn.well_formed(),
            pawn.ident() == id,
            pawn.position() == pos,
            pawn.alive(),
            pawn.glyph() == pawn_glyph(id),
            pawn.count() == 0,
    {
        let name = if id > 0 {
            '兵'
        } else {
            '卒'
        };
        Pawn(Chess::new(ChessKind::Pawn, id, true, pos, name))
    }
}

impl ChessState for Pawn {
    closed spec fn well_formed(&self) -> bool {
        &&& self.0.buffer_ok()
        &&& self.0.kind() == ChessKind::Pawn
        &&& is_pawn_id(self.0.ident())
        &&& self.0.position().on_board()
        &&& self.0.glyph() == pawn_glyph(self.0.ident())
    }

    closed spec fn ident(&self) -> i8 {
        self.0.ident()
    }

    closed spec fn position(&self) -> Position {
        self.0.position()
    }

    closed spec fn alive(&self) -> bool {
        self.0.alive()
    }

    closed spec fn glyph(&self) -> char {
        self.0.glyph()
    }

    closed spec fn buffer(&self) -> Seq<Option<Position>> {
        self.0.buffer()
    }

    closed spec fn count(&self) -> nat {
        self.0.count()
    }

    open spec fn targets(id: i8, from: Position, board: BoardShape) -> Set<Position> {
        Set::new(|to: Position| pawn_may_go(board, id, from, to))
    }
}

impl ChessTrait for Pawn {
    fn killed(&mut self) {
        self.0.killed();
    }

    fn is_alive(&self) -> (alive: bool) {
        self.0.is_alive()
    }

    fn get_name(&self) -> (name: char) {
        self.0.get_name()
    }

    fn walk_options<'a>(&'a mut self, board_status: &BoardShape) -> (r: (
        &'a [Option<Position>],
        usize,
    )) {
        let id = self.0.id();
        let cur_pos = self.0.pos();
        let steps = step_table(id);
        // before the river only the step forward, in the middle of the table
        let crossed = if id > 0 {
            cur_pos.y >= 5
        } else {
            cur_pos.y <= 4
        };
        let (first, last): (usize, usize) = if crossed {
            (0, 3)
        } else {
            (1, 2)
        };

        self.0.clear_options();
        let mut i: usize = first;
        while i < last
            invariant
                first <= i <= last <= 3,
                crossed == crossed_river(id, cur_pos),
                crossed ==> first == 0 && last == 3,
                !crossed ==> first == 1 && last == 2,
                cur_pos.on_board(),
                id != 0,
                steps@ == pawn_steps(id),
                self.0.buffer_ok(),
                self.0.same_but_options(&old(self).0),
                self.0.ident() == id,
                self.0.count() <= i - first,
                forall|p: Position|
                    #[trigger] self.0.candidates().contains(p) <==> pawn_may_go(
                        *board_status,
                        id,
                        cur_pos,
                        p,
                    ) && step_index(id, cur_pos.displacement(p)) < i,
            decreases last - i,
        {
            if let Some(pos) = cur_pos.checked_add_vec2d(steps[i]) {
                self.0.offer(board_status, pos);
            }
            i += 1;
        }
        proof {
            assert(self.0.candidates() =~= Self::targets(id, cur_pos, *board_status));
            self.0.lemma_count_is_len();
        }
        self.0.options()
    }

    fn walk(&mut self, direction: Vec2d) -> (moved: bool) {
        self.0.commit(direction)
    }
}

/// The step back for the side of `id`.
pub open spec fn pawn_backward(id: i8) -> Vec2d {
    if id > 0 {
        vec2d(0, -1)
    } else {
        vec2d(0, 1)
    }
}

/// Before the river the square ahead is the pawn's one destination, and it
/// is one where it is free or an enemy stands on it. Beyond the river the
/// squares ahead, to the left and to the right are its destinations, each on
/// the same condition. The square behind never is one.
pub proof fn lemma_pawn_river(board: BoardShape, id: i8, from: Position, to: Position)
    requires
        from.on_board(),
    ensures
        !crossed_river(id, from) ==> (Pawn::targets(id, from, board).contains(to) <==> from.offset(
            pawn_forward(id),
        ) == Some(to) && can_land(board, id, to)),
        crossed_river(id, from) ==> (Pawn::targets(id, from, board).contains(to) <==> (
        from.offset(pawn_forward(id)) == Some(to) || from.offset(vec2d(1, 0)) == Some(to)
            || from.offset(vec2d(-1, 0)) == Some(to)) && can_land(board, id, to)),
        from.offset(pawn_backward(id)) == Some(to) ==> !Pawn::targets(id, from, board).contains(
            to,
        ),
{
}

} // verus!
