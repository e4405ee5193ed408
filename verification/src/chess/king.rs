use vstd::prelude::*;
use crate::board::BoardShape;
use crate::chess::{
    can_land, step_each, Chess, ChessKind, ChessState, ChessTrait, BLACK_KING_ID, RED_KING_ID,
};
use crate::position::{intersection_option, lemma_kept_present, Position};
use crate::vec2d::{vec2d, Vec2d};

verus! {

const WALK_OPTIONS_COUNT: usize = 9;

/// The king takes one step along a row or a column and never leaves the
/// palace of its side.
#[derive(Debug, Clone)]
pub struct King(Chess<WALK_OPTIONS_COUNT>);

pub open spec fn is_king_id(id: i8) -> bool {
    id == RED_KING_ID || id == BLACK_KING_ID
}

/// Where the king `id` stands when a game begins.
pub open spec fn king_home(id: i8) -> Position {
    if id == RED_KING_ID {
        Position { x: 4, y: 0 }
    } else {
        Position { x: 4, y: 9 }
    }
}

pub open spec fn king_glyph(id: i8) -> char {
    if id == RED_KING_ID {
        '帅'
    } else {
        '将'
    }
}

/// The three by three squares in which the king of the side of `id` lives.
pub open spec fn in_palace(id: i8, p: Position) -> bool {
    &&& 3 <= p.x <= 5
    &&& if id > 0 {
        p.y <= 2
    } else {
        7 <= p.y <= 9
    }
}

/// One step along a row or a column.
pub open spec fn is_king_step(d: Vec2d) -> bool {
    ||| d.x == 0 && (d.y == 1 || d.y == -1)
    ||| d.y == 0 && (d.x == 1 || d.x == -1)
}

/// The four steps, in the order in which they are tried.
pub open spec fn king_steps() -> Seq<Vec2d> {
    seq![vec2d(1, 0), vec2d(0, 1), vec2d(-1, 0), vec2d(0, -1)]
}

/// The king `id` on `from` may move to `to`.
pub open spec fn king_may_go(board: BoardShape, id: i8, from: Position, to: Position) -> bool {
    &&& to.on_board()
    &&& is_king_step(from.displacement(to))
    &&& in_palace(id, to)
    &&& can_land(board, id, to)
}

fn step_table() -> (table: [Vec2d; 4])
    ensures
        table@ == king_steps(),
{
    [Vec2d { x: 1, y: 0 }, Vec2d { x: 0, y: 1 }, Vec2d { x: -1, y: 0 }, Vec2d { x: 0, y: -1 }]
}

/// The squares of the palace of the side of `id`.
fn palace_table(id: i8) -> (table: [Position; 9])
    ensures
        forall|p: Position| table@.contains(p) <==> in_palace(id, p),
{
    if id > 0 {
        [
            Position { x: 3, y: 0 },
            Position { x: 4, y: 0 },
            Position { x: 5, y: 0 },
            Position { x: 3, y: 1 },
            Position { x: 4, y: 1 },
            Position { x: 5, y: 1 },
            Position { x: 3, y: 2 },
            Position { x: 4, y: 2 },
            Position { x: 5, y: 2 },
        ]
    } else {
        [
            Position { x: 3, y: 9 },
            Position { x: 4, y: 9 },
            Position { x: 5, y: 9 },
            Position { x: 3, y: 8 },
            Position { x: 4, y: 8 },
            Position { x: 5, y: 8 },
            Position { x: 3, y: 7 },
            Position { x: 4, y: 7 },
            Position { x: 5, y: 7 },
        ]
    }
}

impl King {
    /// The king `id` on its home square.
    pub fn new(id: i8) -> (king: Self)
        requires
            is_king_id(id),
        ensures
            king.well_formed(),
            king.ident() == id,
            king.position() == king_home(id),
            king.alive(),
            king.glyph() == king_glyph(id),
            king.count() == 0,
    {
        let pos = if id == RED_KING_ID {
            Position { x: 4, y: 0 }
        } else {
            Position { x: 4, y: 9 }
        };
        let name = if id == RED_KING_ID {
            '帅'
        } else {
            '将'
        };
        King(Chess::new(ChessKind::King, id, true, pos, name))
    }

    /// The king `id` on `pos`.
    pub fn new_with_pos(id: i8, pos: Position) -> (king: Self)
        requires
            is_king_id(id),
            pos.on_board(),
        ensures
            king.well_formed(),
            king.ident() == id,
            king.position() == pos,
            king.alive(),
            king.glyph() == king_glyph(id),
            king.count() == 0,
    {
        let name = if id == RED_KING_ID {
            '帅'
        } else {
            '将'
        };
        King(Chess::new(ChessKind::King, id, true, pos, name))
    }
}

impl ChessState for King {
    closed spec fn well_formed(&self) -> bool {
        &&& self.0.buffer_ok()
        &&& self.0.kind() == ChessKind::King
        &&& is_king_id(self.0.ident())
        &&& self.0.position().on_board()
        &&& self.0.glyph() == king_glyph(self.0.ident())
    }

    closed spec fn ident(&self) -> i8 {
        self.0.ident()
    }

    closed spec fn position(&self) -> Position {
        self.0.position()
    }

    closed spec fn alive(&self) -> bool {
        self.0.alive()
    }

    closed spec fn glyph(&self) -> char {
        self.0.glyph()
    }

    closed spec fn buffer(&self) -> Seq<Option<Position>> {
        self.0.buffer()
    }

    closed spec fn count(&self) -> nat {
        self.0.count()
    }

    open spec fn targets(id: i8, from: Position, board: BoardShape) -> Set<Position> {
        Set::new(|to: Position| king_may_go(board, id, from, to))
    }
}

impl ChessTrait for King {
    fn killed(&mut self) {
        self.0.killed();
    }

    fn is_alive(&self) -> (alive: bool) {
        self.0.is_alive()
    }

    fn get_name(&self) -> (name: char) {
        self.0.get_name()
    }

    fn walk_options<'a>(&'a mut self, board_status: &BoardShape) -> (r: (
        &'a [Option<Position>],
        usize,
    )) {
        let id = self.0.id();
        let optional_positions = palace_table(id);
        let cur_pos = self.0.pos();
        let steps = step_table();
        let reachable_positions = step_each(cur_pos, &steps);
        let walkable_positions = intersection_option(&optional_positions, &reachable_positions);
        proof {
            lemma_kept_present(optional_positions@, reachable_positions@);
        }
        self.0.offer_all(board_status, &walkable_positions);
        proof {
            assert forall|to: Position|
                self.0.candidates().contains(to) <==> king_may_go(
                    *board_status,
                    id,
                    cur_pos,
                    to,
                ) by {
                lemma_reachable(cur_pos, reachable_positions@, to);
                assert(self.0.candidates().contains(to) <==> walkable_positions@.contains(to)
                    && can_land(*board_status, id, to));
            }
            assert(self.0.candidates() =~= Self::targets(id, cur_pos, *board_status));
            self.0.lemma_count_is_len();
        }
        self.0.options()
    }

    fn walk(&mut self, direction: Vec2d) -> (moved: bool) {
        self.0.commit(direction)
    }
}

/// The squares one step away hold `to` exactly where a step leads there.
proof fn lemma_reachable(from: Position, reachable: Seq<Option<Position>>, to: Position)
    requires
        from.on_board(),
        reachable.len() == 4,
        forall|j: int| 0 <= j < 4 ==> reachable[j] == from.offset(king_steps()[j]),
    ensures
        reachable.contains(Some(to)) <==> to.on_board() && is_king_step(from.displacement(to)),
{
    let d = from.displacement(to);
    if to.on_board() && is_king_step(d) {
        let j: int = if d.x == 1 {
            0
        } else if d.y == 1 {
            1
        } else if d.x == -1 {
            2
        } else {
            3
        };
        assert(reachable[j] == Some(to));
    }
}

} // verus!
