//! The pieces. Each has an identifier, whose sign tells the side and whose
//! magnitude tells the piece:
//!
//! ```text
//!  -8 === -6 === -4 === -2 === -1 === -3 === -5 === -7 === -9
//!         -10                                      -11
//!  -15  =======  -13  ====== -12 ======  -14  =======  -16
//!
//!  +15  =======  +13  ====== +12 ======  +14  =======  +16
//!         +10                                      +11
//!  +8 === +6 === +4 === +2 === +1 === +3 === +5 === +7 === +9
//! ```
use vstd::prelude::*;
use crate::board::{occupant, read_cell, BoardShape};
use crate::position::Position;
use crate::vec2d::{vec2d, Vec2d};

pub mod cannon;
pub mod car;
pub mod elephant;
pub mod horse;
pub mod king;
pub mod pawn;
pub mod servant;

verus! {

pub const MAX_CHESS_ID: i8 = 16;

pub const MIN_CHESS_ID: i8 = -16;

pub const RED_KING_ID: i8 = 1;

pub const RED_LEFT_SERVANT_ID: i8 = 2;

pub const RED_RIGHT_SERVANT_ID: i8 = 3;

pub const RED_LEFT_ELEPHANT_ID: i8 = 4;

pub const RED_RIGHT_ELEPHANT_ID: i8 = 5;

pub const RED_LEFT_HORSE_ID: i8 = 6;

pub const RED_RIGHT_HORSE_ID: i8 = 7;

pub const RED_LEFT_CAR_ID: i8 = 8;

pub const RED_RIGHT_CAR_ID: i8 = 9;

pub const RED_LEFT_CANNON_ID: i8 = 10;

pub const RED_RIGHT_CANNON_ID: i8 = 11;

pub const RED_MIDDLE_PAWN_ID: i8 = 12;

pub const RED_MIDDLE_LEFT_PAWN_ID: i8 = 13;

pub const RED_MIDDLE_RIGHT_PAWN_ID: i8 = 14;

pub const RED_LEFTEST_PAWN_ID: i8 = 15;

pub const RED_RIGHTEST_PAWN_ID: i8 = 16;

pub const BLACK_KING_ID: i8 = -1;

pub const BLACK_LEFT_SERVANT_ID: i8 = -2;

pub const BLACK_RIGHT_SERVANT_ID: i8 = -3;

pub const BLACK_LEFT_ELEPHANT_ID: i8 = -4;

pub const BLACK_RIGHT_ELEPHANT_ID: i8 = -5;

pub const BLACK_LEFT_HORSE_ID: i8 = -6;

pub const BLACK_RIGHT_HORSE_ID: i8 = -7;

pub const BLACK_LEFT_CAR_ID: i8 = -8;

pub const BLACK_RIGHT_CAR_ID: i8 = -9;

pub const BLACK_LEFT_CANNON_ID: i8 = -10;

pub const BLACK_RIGHT_CANNON_ID: i8 = -11;

pub const BLACK_MIDDLE_PAWN_ID: i8 = -12;

pub const BLACK_MIDDLE_LEFT_PAWN_ID: i8 = -13;

pub const BLACK_MIDDLE_RIGHT_PAWN_ID: i8 = -14;

pub const BLACK_LEFTEST_PAWN_ID: i8 = -15;

pub const BLACK_RIGHTEST_PAWN_ID: i8 = -16;

#[derive(Debug, PartialEq, Eq, Clone, Copy, Structural)]
pub enum ChessKind {
    King,
    Servant,
    Elephant,
    Horse,
    Car,
    Cannon,
    Pawn,
}

/// Two identifiers of one sign.
pub open spec fn on_same_side(x: i8, y: i8) -> bool {
    (x < 0) == (y < 0)
}

/// Whether two pieces, neither identifier zero, belong to one side.
pub fn same_side(x: i8, y: i8) -> (same: bool)
    requires
        x != 0,
        y != 0,
    ensures
        same == on_same_side(x, y),
{
    (x < 0) == (y < 0)
}

/// The sign test does not depend on the order of its arguments, and every
/// piece is on its own side.
pub proof fn lemma_same_side_symmetric_reflexive(a: i8, b: i8)
    requires
        a != 0,
        b != 0,
    ensures
        on_same_side(a, b) == on_same_side(b, a),
        on_same_side(a, a),
{
}

/// The piece `id` may end a move on `to`: the square is free, or an enemy
/// stands there and is taken.
pub open spec fn can_land(board: BoardShape, id: i8, to: Position) -> bool {
    occupant(board, to) == 0 || !on_same_side(id, occupant(board, to))
}

/// The squares that the first `count` entries of `buffer` hold.
pub open spec fn options_held(buffer: Seq<Option<Position>>, count: nat) -> Set<Position> {
    Set::new(|p: Position| exists|i: int| 0 <= i < count && buffer[i] == Some(p))
}

/// The four directions along rows and columns, in the order in which the
/// sliding pieces walk them.
pub open spec fn straight_directions() -> Seq<Vec2d> {
    seq![vec2d(1, 0), vec2d(0, 1), vec2d(-1, 0), vec2d(0, -1)]
}

/// The place of `d` among the four directions, and their number where it is
/// none of them.
spec fn direction_index(d: Vec2d) -> int {
    if d == vec2d(1, 0) {
        0
    } else if d == vec2d(0, 1) {
        1
    } else if d == vec2d(-1, 0) {
        2
    } else if d == vec2d(0, -1) {
        3
    } else {
        4
    }
}

/// The number of squares that lie in the first `i` directions from `from`.
spec fn room_before(from: Position, i: int) -> int {
    if i <= 0 {
        0
    } else if i == 1 {
        8 - from.x
    } else if i == 2 {
        17 - from.x - from.y
    } else if i == 3 {
        17 - from.y
    } else {
        17
    }
}

fn direction_table() -> (table: [Vec2d; 4])
    ensures
        table@ == straight_directions(),
{
    [Vec2d { x: 1, y: 0 }, Vec2d { x: 0, y: 1 }, Vec2d { x: -1, y: 0 }, Vec2d { x: 0, y: -1 }]
}

/// The squares reached from `from` by each of four steps, `None` where a step
/// leaves the board.
fn step_each(from: Position, steps: &[Vec2d; 4]) -> (reached: [Option<Position>; 4])
    ensures
        forall|j: int| 0 <= j < 4 ==> reached@[j] == from.offset(steps@[j]),
{
    let mut reached: [Option<Position>; 4] = [None;4];
    let mut i: usize = 0;
    while i < 4
        invariant
            i <= 4,
            forall|j: int| 0 <= j < i ==> reached@[j] == from.offset(steps@[j]),
        decreases 4 - i,
    {
        reached[i] = from.checked_add_vec2d(steps[i]);
        i += 1;
    }
    reached
}

/// What `walk_options` on `board` makes of the piece `before`: the live
/// entries of the buffer are the squares open to the piece, each once, and
/// the rest of its state is as it was.
pub open spec fn refreshed<T: ChessState>(before: &T, after: &T, board: BoardShape) -> bool {
    let open_squares = T::targets(before.ident(), before.position(), board);
    &&& after.well_formed()
    &&& after.ident() == before.ident()
    &&& after.position() == before.position()
    &&& after.alive() == before.alive()
    &&& after.glyph() == before.glyph()
    &&& options_held(after.buffer(), after.count()) == open_squares
    &&& open_squares.finite()
    &&& after.count() == open_squares.len()
    &&& after.count() <= after.buffer().len()
    &&& forall|i: int| 0 <= i < after.count() ==> (#[trigger] after.buffer()[i]) is Some
}

/// What `walk` by `direction` makes of the piece `before`: it moves exactly
/// where `direction` leads to a live entry of the buffer, and then onto that
/// square; nothing else changes.
pub open spec fn committed<T: ChessState>(
    before: &T,
    after: &T,
    direction: Vec2d,
    moved: bool,
) -> bool {
    let live = options_held(before.buffer(), before.count());
    &&& after.well_formed()
    &&& moved <==> (before.position().offset(direction) matches Some(to) && live.contains(to))
    &&& moved ==> Some(after.position()) == before.position().offset(direction)
    &&& !moved ==> after.position() == before.position()
    &&& after.ident() == before.ident()
    &&& after.alive() == before.alive()
    &&& after.glyph() == before.glyph()
    &&& after.buffer() == before.buffer()
    &&& after.count() == before.count()
}

/// Computing the options a second time on the same board changes nothing:
/// the piece holds the same squares, as many of them, as after the first time.
pub proof fn lemma_walk_options_idempotent<T: ChessState>(
    before: T,
    once: T,
    twice: T,
    board: BoardShape,
)
    requires
        refreshed(&before, &once, board),
        refreshed(&once, &twice, board),
    ensures
        options_held(twice.buffer(), twice.count()) == options_held(
            once.buffer(),
            once.count(),
        ),
        twice.count() == once.count(),
{
}

/// What a piece is, for the contracts of `ChessTrait`.
pub trait ChessState: Sized {
    /// The piece's state is consistent: its identifier is one of its kind, it
    /// stands on the board, and the live entries of its buffer are distinct
    /// squares.
    spec fn well_formed(&self) -> bool;

    spec fn ident(&self) -> i8;

    spec fn position(&self) -> Position;

    spec fn alive(&self) -> bool;

    spec fn glyph(&self) -> char;

    /// The buffer of destinations, of which the first `count()` are live.
    spec fn buffer(&self) -> Seq<Option<Position>>;

    spec fn count(&self) -> nat;

    /// The squares that a piece of this kind with identifier `id` may move to
    /// from `from` on `board`.
    spec fn targets(id: i8, from: Position, board: BoardShape) -> Set<Position>;
}

/// What every kind of piece can do.
pub trait ChessTrait: ChessState {
    /// Refreshes the buffer with the destinations open on `board_status`, and
    /// hands it out with the number of live entries.
    fn walk_options<'a>(&'a mut self, board_status: &BoardShape) -> (r: (
        &'a [Option<Position>],
        usize,
    ))
        requires
            old(self).well_formed(),
        ensures
            refreshed(old(self), final(self), *board_status),
            r.0@ == final(self).buffer(),
            r.1 == final(self).count(),
    ;

    /// Moves the piece by `direction` where that leads to a live entry of the
    /// buffer, and says whether it did.
    fn walk(&mut self, direction: Vec2d) -> (moved: bool)
        requires
            old(self).well_formed(),
        ensures
            committed(old(self), final(self), direction, moved),
    ;

    /// Marks the piece as taken.
    fn killed(&mut self)
        ensures
            !final(self).alive(),
            final(self).well_formed() == old(self).well_formed(),
            final(self).ident() == old(self).ident(),
            final(self).position() == old(self).position(),
            final(self).glyph() == old(self).glyph(),
            final(self).buffer() == old(self).buffer(),
            final(self).count() == old(self).count(),
    ;

    fn is_alive(&self) -> (alive: bool)
        ensures
            alive == self.alive(),
    ;

    fn get_name(&self) -> (name: char)
        ensures
            name == self.glyph(),
    ;
}

/// The state that all kinds share, with room for `N` destinations.
#[derive(Debug, Clone)]
pub struct Chess<const N: usize> {
    job: ChessKind,
    id: i8,  // positive for red, negative for black
    is_alive: bool,
    pos: Position,
    name: char,
    walk_options: [Option<Position>; N],
    option_count: usize,
}

impl<const N: usize> Chess<N> {
    pub closed spec fn kind(&self) -> ChessKind {
        self.job
    }

    pub closed spec fn ident(&self) -> i8 {
        self.id
    }

    pub closed spec fn alive(&self) -> bool {
        self.is_alive
    }

    pub closed spec fn position(&self) -> Position {
        self.pos
    }

    pub closed spec fn glyph(&self) -> char {
        self.name
    }

    pub closed spec fn buffer(&self) -> Seq<Option<Position>> {
        self.walk_options@
    }

    pub closed spec fn count(&self) -> nat {
        self.option_count as nat
    }

    /// The live destinations.
    pub open spec fn candidates(&self) -> Set<Position> {
        options_held(self.buffer(), self.count())
    }

    /// The live entries are within the buffer, hold a square each, and no
    /// square twice.
    pub open spec fn buffer_ok(&self) -> bool {
        &&& self.buffer().len() == N
        &&& self.count() <= N
        &&& forall|i: int| 0 <= i < self.count() ==> (#[trigger] self.buffer()[i]) is Some
        &&& forall|i: int, j: int|
            0 <= i < j < self.count() ==> self.buffer()[i] != self.buffer()[j]
    }

    /// This piece and `other` agree in all but their position.
    pub open spec fn same_but_position(&self, other: &Self) -> bool {
        &&& self.kind() == other.kind()
        &&& self.ident() == other.ident()
        &&& self.alive() == other.alive()
        &&& self.glyph() == other.glyph()
        &&& self.buffer() == other.buffer()
        &&& self.count() == other.count()
    }

    /// This piece and `other` agree in all but their buffer.
    pub open spec fn same_but_options(&self, other: &Self) -> bool {
        &&& self.kind() == other.kind()
        &&& self.ident() == other.ident()
        &&& self.alive() == other.alive()
        &&& self.glyph() == other.glyph()
        &&& self.position() == other.position()
    }

    pub fn new(job: ChessKind, id: i8, is_alive: bool, pos: Position, name: char) -> (chess: Self)
        ensures
            chess.kind() == job,
            chess.ident() == id,
            chess.alive() == is_alive,
            chess.position() == pos,
            chess.glyph() == name,
            chess.count() == 0,
            chess.buffer_ok(),
            chess.candidates() == Set::<Position>::empty(),
    {
        let chess = Chess {
            job,
            id,
            is_alive,
            pos,
            name,
            walk_options: [None;N],
            option_count: 0,
        };
        chess
    }

    pub fn killed(&mut self)
        ensures
            !final(self).alive(),
            final(self).kind() == old(self).kind(),
            final(self).ident() == old(self).ident(),
            final(self).position() == old(self).position(),
            final(self).glyph() == old(self).glyph(),
            final(self).buffer() == old(self).buffer(),
            final(self).count() == old(self).count(),
    {
        self.is_alive = false;
    }

    pub fn is_alive(&self) -> (alive: bool)
        ensures
            alive == self.alive(),
    {
        self.is_alive
    }

    pub fn get_name(&self) -> (name: char)
        ensures
            name == self.glyph(),
    {
        self.name
    }

    fn id(&self) -> (id: i8)
        ensures
            id == self.ident(),
    {
        self.id
    }

    fn pos(&self) -> (pos: Position)
        ensures
            pos == self.position(),
    {
        self.pos
    }

    /// Forgets the destinations computed before.
    fn clear_options(&mut self)
        requires
            old(self).buffer().len() == N,
        ensures
            final(self).buffer_ok(),
            final(self).count() == 0,
            final(self).candidates() == Set::<Position>::empty(),
            final(self).same_but_options(old(self)),
    {
        self.option_count = 0;
    }

    /// Adds `pos` to the live destinations.
    fn add_option(&mut self, pos: Position)
        requires
            old(self).buffer_ok(),
            old(self).count() < N,
            !old(self).candidates().contains(pos),
        ensures
            final(self).buffer_ok(),
            final(self).count() == old(self).count() + 1,
            final(self).candidates() == old(self).candidates().insert(pos),
            final(self).same_but_options(old(self)),
    {
        let ghost before = *self;
        self.walk_options[self.option_count] = Some(pos);
        self.option_count += 1;
        proof {
            let n = before.count() as int;
            assert forall|p: Position| self.candidates().contains(p) == before.candidates().insert(
                pos,
            ).contains(p) by {
                if before.candidates().contains(p) {
                    let i = choose|i: int| 0 <= i < n && before.buffer()[i] == Some(p);
                    assert(self.buffer()[i] == Some(p));
                }
                if p == pos {
                    assert(self.buffer()[n] == Some(p));
                }
            }
        }
    }

    /// Adds `pos` to the live destinations unless a piece of the same side
    /// stands there.
    fn offer(&mut self, board: &BoardShape, pos: Position)
        requires
            old(self).buffer_ok(),
            old(self).count() < N,
            old(self).ident() != 0,
            pos.on_board(),
            !old(self).candidates().contains(pos),
        ensures
            final(self).buffer_ok(),
            final(self).same_but_options(old(self)),
            can_land(*board, old(self).ident(), pos) ==> {
                &&& final(self).count() == old(self).count() + 1
                &&& final(self).candidates() == old(self).candidates().insert(pos)
            },
            !can_land(*board, old(self).ident(), pos) ==> {
                &&& final(self).count() == old(self).count()
                &&& final(self).candidates() == old(self).candidates()
            },
    {
        let other = read_cell(board, pos);
        if other == 0 || !same_side(self.id, other) {
            // nobody is here, or an enemy to take
            self.add_option(pos);
        }
        // else a piece of the same side is in the way
    }

    /// Replaces the live destinations by those of `squares` on which no piece
    /// of the same side stands.
    fn offer_all(&mut self, board: &BoardShape, squares: &Vec<Position>)
        requires
            old(self).buffer().len() == N,
            old(self).ident() != 0,
            squares@.len() <= N,
            squares@.no_duplicates(),
            forall|j: int| 0 <= j < squares@.len() ==> (#[trigger] squares@[j]).on_board(),
        ensures
            final(self).buffer_ok(),
            final(self).same_but_options(old(self)),
            forall|p: Position|
                final(self).candidates().contains(p) <==> squares@.contains(p) && can_land(
                    *board,
                    old(self).ident(),
                    p,
                ),
    {
        self.clear_options();
        let mut k: usize = 0;
        while k < squares.len()
            invariant
                k <= squares@.len() <= N,
                squares@.no_duplicates(),
                forall|j: int| 0 <= j < squares@.len() ==> (#[trigger] squares@[j]).on_board(),
                self.buffer_ok(),
                self.same_but_options(old(self)),
                self.ident() != 0,
                self.count() <= k,
                forall|p: Position|
                    self.candidates().contains(p) <==> squares@.take(k as int).contains(p)
                        && can_land(*board, self.ident(), p),
            decreases squares.len() - k,
        {
            let pos = squares[k];
            proof {
                let seen = squares@.take(k as int);
                assert(squares@.take(k + 1) == seen.push(pos));
                assert forall|p: Position|
                    seen.push(pos).contains(p) <==> seen.contains(p) || p == pos by {
                    if p == pos {
                        assert(seen.push(pos)[k as int] == p);
                    }
                }
            }
            self.offer(board, pos);
            k += 1;
        }
        proof {
            assert(squares@.take(k as int) == squares@);
        }
    }

    /// The buffer and the number of its live entries.
    fn options<'a>(&'a self) -> (r: (&'a [Option<Position>], usize))
        ensures
            r.0@ == self.buffer(),
            r.1 == self.count(),
    {
        (&self.walk_options, self.option_count)
    }

    /// Moves by `direction` where that leads to a live destination.
    fn commit(&mut self, direction: Vec2d) -> (moved: bool)
        requires
            old(self).buffer_ok(),
        ensures
            moved <==> (old(self).position().offset(direction) matches Some(to) && old(
                self,
            ).candidates().contains(to)),
            moved ==> Some(final(self).position()) == old(self).position().offset(direction),
            !moved ==> final(self).position() == old(self).position(),
            final(self).same_but_position(old(self)),
    {
        let target = match self.pos.checked_add_vec2d(direction) {
            Some(target) => target,
            None => {
                return false;
            },
        };
        let mut i: usize = 0;
        while i < self.option_count
            invariant
                *self == *old(self),
                self.buffer_ok(),
                Some(target) == self.pos.offset(direction),
                i <= self.option_count,
                forall|j: int| 0 <= j < i ==> self.walk_options@[j] != Some(target),
            decreases self.option_count - i,
        {
            if let Some(pos) = self.walk_options[i] {
                if pos == target {
                    self.pos = target;
                    return true;
                }
            }
            i += 1;
        }
        false
    }

    /// The number of live destinations is the number of distinct squares held.
    proof fn lemma_count_is_len(&self)
        requires
            self.buffer_ok(),
        ensures
            self.candidates().finite(),
            self.candidates().len() == self.count(),
    {
        let listed = Seq::new(self.count(), |i: int| self.buffer()[i].unwrap());
        listed.unique_seq_to_set();
        assert forall|p: Position| listed.to_set().contains(p) == self.candidates().contains(
            p,
        ) by {
            if self.candidates().contains(p) {
                let i = choose|i: int| 0 <= i < self.count() && self.buffer()[i] == Some(p);
                assert(listed[i] == p);
            }
        }
        assert(listed.to_set() =~= self.candidates());
    }
}

} // verus!
