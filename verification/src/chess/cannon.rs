use vstd::prelude::*;
use crate::board::{
    clear_between, occupant, one_screen_between, read_cell, sole_screen, BoardShape,
};
use crate::chess::{
    direction_index, direction_table, on_same_side, room_before, same_side, straight_directions,
    Chess, ChessKind, ChessState, ChessTrait, BLACK_LEFT_CANNON_ID, BLACK_RIGHT_CANNON_ID,
    RED_LEFT_CANNON_ID, RED_RIGHT_CANNON_ID,
};
use crate::position::{lemma_between_along, strictly_between, Position};
use crate::vec2d::{is_straight_step, Vec2d};

verus! {

const MAX_WALK_OPTIONS_COUNT: usize = 17;

/// The cannon slides like the car but takes no piece in its way: it takes
/// the first enemy behind the first piece in its way, its screen.
#[derive(Debug, Clone)]
pub struct Cannon(Chess<MAX_WALK_OPTIONS_COUNT>);

pub open spec fn is_cannon_id(id: i8) -> bool {
    ||| id == RED_LEFT_CANNON_ID
    ||| id == RED_RIGHT_CANNON_ID
    ||| id == BLACK_LEFT_CANNON_ID
    ||| id == BLACK_RIGHT_CANNON_ID
}

/// Where the cannon `id` stands when a game begins.
pub open spec fn cannon_home(id: i8) -> Position {
    if id == RED_LEFT_CANNON_ID {
        Position { x: 1, y: 2 }
    } else if id == RED_RIGHT_CANNON_ID {
        Position { x: 7, y: 2 }
    } else if id == BLACK_LEFT_CANNON_ID {
        Position { x: 1, y: 7 }
    } else {
        Position { x: 7, y: 7 }
    }
}

pub open spec fn cannon_glyph(id: i8) -> char {
    if id > 0 {
        '炮'
    } else {
        '鞄'
    }
}

/// The cannon `id` on `from` may move to `to`: to a free square with nothing
/// in between, or onto an enemy with exactly one piece in between.
pub open spec fn cannon_may_go(board: BoardShape, id: i8, from: Position, to: Position) -> bool {
    &&& to.on_board()
    &&& from.in_line(to)
    &&& if occupant(board, to) == 0 {
        clear_between(board, from, to)
    } else {
        !on_same_side(id, occupant(board, to)) && one_screen_between(board, from, to)
    }
}

/// The squares `lo` to `hi` steps of `d` from `from` are free.
spec fn free_along(board: BoardShape, from: Position, d: Vec2d, lo: int, hi: int) -> bool {
    forall|q: Position| lo <= #[trigger] from.steps_along(d, q) <= hi ==> occupant(board, q) == 0
}

impl Cannon {
    /// The cannon `id` on its home square.
    pub fn new(id: i8) -> (cannon: Self)
        requires
            is_cannon_id(id),
        ensures
            cannon.well_formed(),
            cannon.ident() == id,
            cannon.position() == cannon_home(id),
            cannon.alive(),
            cannon.glyph() == cannon_glyph(id),
            cannon.count() == 0,
    {
        let pos = if id == RED_LEFT_CANNON_ID {
            Position { x: 1, y: 2 }
        } else if id == RED_RIGHT_CANNON_ID {
            Position { x: 7, y: 2 }
        } else if id == BLACK_LEFT_CANNON_ID {
            Position { x: 1, y: 7 }
        } else {
            Position { x: 7, y: 7 }
        };
        let name = if id > 0 {
            '炮'
        } else {
            '鞄'
        };
        Cannon(Chess::new(ChessKind::Cannon, id, true, pos, name))
    }

    /// The cannon `id` on `pos`.
    pub fn new_with_pos(id: i8, pos: Position) -> (cannon: Self)
        requires
            is_cannon_id(id),
            pos.on_board(),
        ensures
            cannon.well_formed(),
            cannon.ident() == id,
            cannon.position() == pos,
            cannon.alive(),
            cannon.glyph() == cannon_glyph(id),
            cannon.count() == 0,
    {
        let name = if id > 0 {
            '炮'
        } else {
            '鞄'
        };
        Cannon(Chess::new(ChessKind::Cannon, id, true, pos, name))
    }

    /// Adds the destinations that lie in one direction.
    fn fire(&mut self, board_status: &BoardShape, direction: Vec2d)
        requires
            old(self).well_formed(),
            is_straight_step(direction),
            old(self).0.count() + old(self).0.position().room(direction)
                <= MAX_WALK_OPTIONS_COUNT,
            forall|p: Position| #[trigger]
                old(self).0.candidates().contains(p) ==> old(self).0.position().steps_along(
                    direction,
                    p,
                ) == 0,
        ensures
            final(self).well_formed(),
            final(self).0.same_but_options(&old(self).0),
            final(self).0.count() <= old(self).0.count() + old(self).0.position().room(
                direction,
            ),
            forall|p: Position| #[trigger]
                final(self).0.candidates().contains(p) <==> old(self).0.candidates().contains(p)
                    || (cannon_may_go(
                    *board_status,
                    old(self).0.ident(),
                    old(self).0.position(),
                    p,
                ) && old(self).0.position().steps_along(direction, p) >= 1),
    {
        let id = self.0.id();
        let cur_pos = self.0.pos();
        let ghost before = self.0.candidates();
        let ghost start = self.0.count();
        let mut new_pos = cur_pos;
        let mut screen: Option<Position> = None;
        let ghost mut k: int = 0;
        loop
            invariant_except_break
                screen is None,
                if k == 0 {
                    new_pos == cur_pos
                } else {
                    new_pos.on_board() && cur_pos.steps_along(direction, new_pos) == k
                },
            invariant
                forall|p: Position| #[trigger]
                    before.contains(p) ==> cur_pos.steps_along(direction, p) == 0,
                0 <= k <= cur_pos.room(direction),
                cur_pos.on_board(),
                is_straight_step(direction),
                is_cannon_id(id),
                self.0.ident() == id,
                self.0.position() == cur_pos,
                self.0.buffer_ok(),
                self.0.same_but_options(&old(self).0),
                start + cur_pos.room(direction) <= MAX_WALK_OPTIONS_COUNT,
                self.0.count() == start + k,
                free_along(*board_status, cur_pos, direction, 1, k),
                forall|p: Position| #[trigger]
                    self.0.candidates().contains(p) <==> before.contains(p) || 1
                        <= cur_pos.steps_along(direction, p) <= k,
            ensures
                match screen {
                    Some(s) => s.on_board() && cur_pos.steps_along(direction, s) == k + 1
                        && occupant(*board_status, s) != 0,
                    None => forall|p: Position|
                        p.on_board() ==> #[trigger] cur_pos.steps_along(direction, p) <= k,
                },
            decreases cur_pos.room(direction) - k,
        {
            match new_pos.checked_add_vec2d(direction) {
                Some(new_pos_) => {
                    let other = read_cell(board_status, new_pos_);
                    if other == 0 {
                        // nobody here, can walk
                        new_pos = new_pos_;
                        self.0.add_option(new_pos);
                        proof {
                            k = k + 1;
                        }
                    } else {
                        // somebody here: can walk no further, but may take an
                        // enemy behind
                        screen = Some(new_pos_);
                        break ;
                    }
                },
                None => {
                    break ;
                },
            }
        }
        let Some(screen_pos) = screen else {
            proof {
                assert forall|p: Position| cur_pos.steps_along(direction, p) >= 1 implies (
                cannon_may_go(*board_status, id, cur_pos, p) <==> 1 <= cur_pos.steps_along(
                    direction,
                    p,
                ) <= k) by {
                    if cur_pos.steps_along(direction, p) <= k {
                        lemma_before_screen(*board_status, id, cur_pos, direction, k, p);
                    }
                }
            }
            return ;
        };
        let ghost slid = self.0.candidates();
        let mut forward_pos = screen_pos;
        let ghost mut m: int = k + 1;
        loop
            invariant_except_break
                self.0.candidates() == slid,
                self.0.count() == start + k,
            invariant
                k + 1 <= m <= cur_pos.room(direction),
                forward_pos.on_board(),
                cur_pos.steps_along(direction, forward_pos) == m,
                0 <= k,
                cur_pos.on_board(),
                is_straight_step(direction),
                is_cannon_id(id),
                self.0.ident() == id,
                self.0.position() == cur_pos,
                self.0.buffer_ok(),
                self.0.same_but_options(&old(self).0),
                start + cur_pos.room(direction) <= MAX_WALK_OPTIONS_COUNT,
                screen_pos.on_board(),
                cur_pos.steps_along(direction, screen_pos) == k + 1,
                occupant(*board_status, screen_pos) != 0,
                free_along(*board_status, cur_pos, direction, 1, k),
                free_along(*board_status, cur_pos, direction, k + 2, m),
                forall|p: Position| #[trigger]
                    slid.contains(p) <==> before.contains(p) || 1 <= cur_pos.steps_along(
                        direction,
                        p,
                    ) <= k,
                forall|p: Position| #[trigger]
                    before.contains(p) ==> cur_pos.steps_along(direction, p) == 0,
            ensures
                self.0.count() <= start + cur_pos.room(direction),
                forall|p: Position| #[trigger]
                    self.0.candidates().contains(p) <==> before.contains(p) || (cannon_may_go(
                        *board_status,
                        id,
                        cur_pos,
                        p,
                    ) && cur_pos.steps_along(direction, p) >= 1),
            decreases cur_pos.room(direction) - m,
        {
            proof {
                assert forall|p: Position| 1 <= cur_pos.steps_along(direction, p) <= m implies (
                cannon_may_go(*board_status, id, cur_pos, p) <==> cur_pos.steps_along(
                    direction,
                    p,
                ) <= k) by {
                    let j = cur_pos.steps_along(direction, p);
                    if j <= k {
                        lemma_before_screen(*board_status, id, cur_pos, direction, k, p);
                    } else if j == k + 1 {
                        lemma_at_screen(*board_status, id, cur_pos, direction, k, p);
                    } else {
                        lemma_behind_screen(*board_status, id, cur_pos, direction, screen_pos, p);
                    }
                }
            }
            match forward_pos.checked_add_vec2d(direction) {
                Some(forward_pos_) => {
                    let other = read_cell(board_status, forward_pos_);
                    if other == 0 {
                        forward_pos = forward_pos_;
                        proof {
                            m = m + 1;
                        }
                    } else {
                        proof {
                            lemma_first_behind_screen(
                                *board_status,
                                id,
                                cur_pos,
                                direction,
                                k,
                                screen_pos,
                                m,
                                forward_pos_,
                            );
                            assert forall|p: Position|
                                cur_pos.steps_along(direction, p) > m + 1 implies !cannon_may_go(
                                *board_status,
                                id,
                                cur_pos,
                                p,
                            ) by {
                                lemma_behind_two(
                                    *board_status,
                                    id,
                                    cur_pos,
                                    direction,
                                    screen_pos,
                                    forward_pos_,
                                    p,
                                );
                            }
                        }
                        if !same_side(id, other) {
                            // the first piece behind the screen is an enemy
                            self.0.add_option(forward_pos_);
                        }
                        break ;
                    }
                },
                None => {
                    break ;
                },
            }
        }
    }
}

/// A square along `d` from `from` is open to the cannon where all squares up
/// to it are free.
proof fn lemma_before_screen(
    board: BoardShape,
    id: i8,
    from: Position,
    d: Vec2d,
    k: int,
    p: Position,
)
    requires
        from.on_board(),
        is_straight_step(d),
        1 <= from.steps_along(d, p) <= k <= from.room(d),
        free_along(board, from, d, 1, k),
    ensures
        cannon_may_go(board, id, from, p),
{
    assert forall|q: Position| strictly_between(from, q, p) implies occupant(board, q) == 0 by {
        lemma_between_along(from, d, q, p);
    }
}

/// The first piece in the way cannot be taken.
proof fn lemma_at_screen(board: BoardShape, id: i8, from: Position, d: Vec2d, k: int, s: Position)
    requires
        is_straight_step(d),
        0 <= k,
        from.steps_along(d, s) == k + 1,
        occupant(board, s) != 0,
        free_along(board, from, d, 1, k),
    ensures
        !cannon_may_go(board, id, from, s),
{
    assert forall|q: Position| !sole_screen(board, from, q, s) by {
        lemma_between_along(from, d, q, s);
    }
}

/// A free square behind a piece is out of reach.
proof fn lemma_behind_screen(
    board: BoardShape,
    id: i8,
    from: Position,
    d: Vec2d,
    s: Position,
    p: Position,
)
    requires
        is_straight_step(d),
        1 <= from.steps_along(d, s) < from.steps_along(d, p),
        occupant(board, s) != 0,
        occupant(board, p) == 0,
    ensures
        !cannon_may_go(board, id, from, p),
{
    lemma_between_along(from, d, s, p);
}

/// The first piece behind the screen can be taken exactly where it is an
/// enemy.
proof fn lemma_first_behind_screen(
    board: BoardShape,
    id: i8,
    from: Position,
    d: Vec2d,
    k: int,
    s: Position,
    m: int,
    t: Position,
)
    requires
        from.on_board(),
        is_straight_step(d),
        0 <= k < m,
        from.steps_along(d, s) == k + 1,
        occupant(board, s) != 0,
        free_along(board, from, d, 1, k),
        free_along(board, from, d, k + 2, m),
        t.on_board(),
        from.steps_along(d, t) == m + 1,
        occupant(board, t) != 0,
    ensures
        cannon_may_go(board, id, from, t) <==> !on_same_side(id, occupant(board, t)),
{
    assert forall|q: Position| strictly_between(from, q, t) && q != s implies occupant(board, q)
        == 0 by {
        lemma_between_along(from, d, q, t);
    }
    assert(sole_screen(board, from, s, t));
}

/// Nothing behind two pieces is in reach.
proof fn lemma_behind_two(
    board: BoardShape,
    id: i8,
    from: Position,
    d: Vec2d,
    s: Position,
    t: Position,
    p: Position,
)
    requires
        is_straight_step(d),
        1 <= from.steps_along(d, s) < from.steps_along(d, t) < from.steps_along(d, p),
        occupant(board, s) != 0,
        occupant(board, t) != 0,
    ensures
        !cannon_may_go(board, id, from, p),
{
    lemma_between_along(from, d, t, p);
    assert forall|q: Position| !sole_screen(board, from, q, p) by {
        if sole_screen(board, from, q, p) {
            assert(strictly_between(from, s, p) && strictly_between(from, t, p));
        }
    }
}

impl ChessState for Cannon {
    closed spec fn well_formed(&self) -> bool {
        &&& self.0.buffer_ok()
        &&& self.0.kind() == ChessKind::Cannon
        &&& is_cannon_id(self.0.ident())
        &&& self.0.position().on_board()
        &&& self.0.glyph() == cannon_glyph(self.0.ident())
    }

    closed spec fn ident(&self) -> i8 {
        self.0.ident()
    }

    closed spec fn position(&self) -> Position {
        self.0.position()
    }

    closed spec fn alive(&self) -> bool {
        self.0.alive()
    }

    closed spec fn glyph(&self) -> char {
        self.0.glyph()
    }

    closed spec fn buffer(&self) -> Seq<Option<Position>> {
        self.0.buffer()
    }

    closed spec fn count(&self) -> nat {
        self.0.count()
    }

    open spec fn targets(id: i8, from: Position, board: BoardShape) -> Set<Position> {
        Set::new(|to: Position| cannon_may_go(board, id, from, to))
    }
}

impl ChessTrait for Cannon {
    fn killed(&mut self) {
        self.0.killed();
    }

    fn is_alive(&self) -> (alive: bool) {
        self.0.is_alive()
    }

    fn get_name(&self) -> (name: char) {
        self.0.get_name()
    }

    fn walk_options<'a>(&'a mut self, board_status: &BoardShape) -> (r: (
        &'a [Option<Position>],
        usize,
    )) {
        let id = self.0.id();
        let cur_pos = self.0.pos();
        let directions = direction_table();
        self.0.clear_options();
        let mut i: usize = 0;
        while i < 4
            invariant
                i <= 4,
                directions@ == straight_directions(),
                self.well_formed(),
                self.0.same_but_options(&old(self).0),
                self.0.ident() == id,
                self.0.position() == cur_pos,
                self.0.count() <= room_before(cur_pos, i as int),
                forall|p: Position| #[trigger]
                    self.0.candidates().contains(p) <==> cannon_may_go(
                        *board_status,
                        id,
                        cur_pos,
                        p,
                    ) && direction_index(cur_pos.heading(p)) < i,
            decreases 4 - i,
        {
            let direction = directions[i];
            self.fire(board_status, direction);
            i += 1;
        }
        proof {
            assert(self.0.candidates() =~= Self::targets(id, cur_pos, *board_status));
            self.0.lemma_count_is_len();
        }
        self.0.options()
    }

    fn walk(&mut self, direction: Vec2d) -> (moved: bool) {
        self.0.commit(direction)
    }
}

/// The cannon takes an enemy exactly over one piece. For an enemy on `to`,
/// in line with the cannon: with exactly one piece in between, of either
/// side, `to` is a destination, and no other piece in that direction is
/// one; with nothing in between, `to` is none.
pub proof fn lemma_cannon_screen(board: BoardShape, id: i8, from: Position, to: Position)
    requires
        from.on_board(),
        to.on_board(),
        from.in_line(to),
        occupant(board, to) != 0,
        !on_same_side(id, occupant(board, to)),
    ensures
        one_screen_between(board, from, to) ==> Cannon::targets(id, from, board).contains(to),
        one_screen_between(board, from, to) ==> forall|other: Position|
            from.heading(other) == from.heading(to) && occupant(board, other) != 0
                && #[trigger] Cannon::targets(id, from, board).contains(other) ==> other == to,
        clear_between(board, from, to) ==> !Cannon::targets(id, from, board).contains(to),
{
    let d = from.heading(to);
    if one_screen_between(board, from, to) {
        let s = choose|s: Position| sole_screen(board, from, s, to);
        assert forall|other: Position|
            from.heading(other) == d && occupant(board, other) != 0 && Cannon::targets(
                id,
                from,
                board,
            ).contains(other) implies other == to by {
            // of two pieces one behind the other, the further one has the
            // nearer one and its screen before it
            let r = choose|r: Position| sole_screen(board, from, r, other);
            lemma_between_along(from, d, other, to);
            lemma_between_along(from, d, to, other);
            lemma_between_along(from, d, s, other);
            lemma_between_along(from, d, r, to);
        }
    }
}

/// Where the one piece between the cannon and an enemy on `to` stands next
/// to the cannon, `to` is the only destination in that direction.
pub proof fn lemma_cannon_sole_option(
    board: BoardShape,
    id: i8,
    from: Position,
    screen: Position,
    to: Position,
)
    requires
        from.on_board(),
        to.on_board(),
        from.in_line(to),
        occupant(board, to) != 0,
        !on_same_side(id, occupant(board, to)),
        sole_screen(board, from, screen, to),
        from.distance(screen) == 1,
    ensures
        Cannon::targets(id, from, board).contains(to),
        forall|other: Position|
            from.heading(other) == from.heading(to) && #[trigger] Cannon::targets(
                id,
                from,
                board,
            ).contains(other) ==> other == to,
{
    lemma_cannon_screen(board, id, from, to);
    let d = from.heading(to);
    assert forall|other: Position|
        from.heading(other) == d && Cannon::targets(id, from, board).contains(
            other,
        ) implies occupant(board, other) != 0 by {
        lemma_between_along(from, d, screen, other);
    }
}

} // verus!
