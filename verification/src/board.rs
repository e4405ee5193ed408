use vstd::prelude::*;
use crate::chess::{MAX_CHESS_ID, MIN_CHESS_ID};
use crate::position::{strictly_between, Position};

verus! {

pub const BOARD_WIDTH: usize = 9;

pub const BOARD_HEIGHT: usize = 10;

/// The occupancy grid, indexed by column and then by row. A cell holds zero
/// where the square is free, and a piece's identifier otherwise.
pub type BoardShape = [[i8; BOARD_HEIGHT]; BOARD_WIDTH];

/// The identifier that stands on `pos`.
pub open spec fn occupant(board: BoardShape, pos: Position) -> i8 {
    board[pos.x as int][pos.y as int]
}

/// No piece stands between `from` and `to`.
pub open spec fn clear_between(board: BoardShape, from: Position, to: Position) -> bool {
    forall|p: Position| #[trigger] strictly_between(from, p, to) ==> occupant(board, p) == 0
}

/// The piece on `screen` is the only one between `from` and `to`.
pub open spec fn sole_screen(
    board: BoardShape,
    from: Position,
    screen: Position,
    to: Position,
) -> bool {
    &&& strictly_between(from, screen, to)
    &&& occupant(board, screen) != 0
    &&& forall|p: Position|
        #[trigger] strictly_between(from, p, to) && p != screen ==> occupant(board, p) == 0
}

/// Exactly one piece stands between `from` and `to`.
pub open spec fn one_screen_between(board: BoardShape, from: Position, to: Position) -> bool {
    exists|screen: Position| sole_screen(board, from, screen, to)
}

/// Reads the cell at `pos`.
pub fn read_cell(board: &BoardShape, pos: Position) -> (id: i8)
    requires
        pos.on_board(),
    ensures
        id == occupant(*board, pos),
{
    board[pos.x][pos.y]
}

/// Writes `id` into the cell at `pos`.
pub fn write_cell(board: &mut BoardShape, pos: Position, id: i8)
    requires
        pos.on_board(),
    ensures
        occupant(*final(board), pos) == id,
        forall|p: Position|
            p.on_board() && p != pos ==> occupant(*final(board), p) == occupant(*old(board), p),
{
    board[pos.x][pos.y] = id;
}

/// The identifier that the placements `chesses`, made in order, leave on
/// `pos`: that of the last one made there, and zero where none was.
pub open spec fn placed(chesses: Seq<(i8, Position)>, pos: Position) -> i8
    decreases chesses.len(),
{
    if chesses.len() == 0 {
        0
    } else if chesses.last().1 == pos {
        chesses.last().0
    } else {
        placed(chesses.drop_last(), pos)
    }
}

/// The board on which the pieces `chesses` stand and nothing else.
pub fn generate_board(chesses: Vec<(i8, Position)>) -> (board: BoardShape)
    requires
        forall|i: int|
            0 <= i < chesses@.len() ==> MIN_CHESS_ID <= (#[trigger] chesses@[i]).0
                <= MAX_CHESS_ID && chesses@[i].1.on_board(),
    ensures
        forall|pos: Position| pos.on_board() ==> occupant(board, pos) == placed(chesses@, pos),
{
    let mut board: BoardShape = [[0i8;BOARD_HEIGHT];BOARD_WIDTH];
    let mut i: usize = 0;
    while i < chesses.len()
        invariant
            i <= chesses@.len(),
            forall|j: int|
                0 <= j < chesses@.len() ==> MIN_CHESS_ID <= (#[trigger] chesses@[j]).0
                    <= MAX_CHESS_ID && chesses@[j].1.on_board(),
            forall|pos: Position|
                pos.on_board() ==> occupant(board, pos) == placed(chesses@.take(i as int), pos),
        decreases chesses.len() - i,
    {
        let (id, pos) = chesses[i];
        proof {
            assert(chesses@.take(i + 1).drop_last() == chesses@.take(i as int));
        }
        write_cell(&mut board, pos, id);
        i += 1;
    }
    proof {
        assert(chesses@.take(i as int) == chesses@);
    }
    board
}

} // verus!
