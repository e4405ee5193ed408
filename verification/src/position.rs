use vstd::prelude::*;
use vstd::std_specs::ops::AddSpecImpl;
use crate::board::{BOARD_HEIGHT, BOARD_WIDTH};
use crate::vec2d::{is_straight_step, vec2d, Vec2d};

verus! {

/// A square of the board: column `x`, row `y`.
#[derive(Debug, PartialEq, Eq, Clone, Copy, Hash, Structural)]
pub struct Position {
    pub x: usize,
    pub y: usize,
}

impl Position {
    /// The square lies inside the grid.
    pub open spec fn on_board(self) -> bool {
        self.x < BOARD_WIDTH && self.y < BOARD_HEIGHT
    }

    /// The offset that leads from this square to `to`.
    pub open spec fn displacement(self, to: Position) -> Vec2d {
        vec2d(to.x - self.x, to.y - self.y)
    }

    /// `to` is another square of the row or of the column of this one.
    pub open spec fn in_line(self, to: Position) -> bool {
        (self.x == to.x) != (self.y == to.y)
    }

    /// The step of one square that points from this square towards `to`.
    pub open spec fn heading(self, to: Position) -> Vec2d {
        vec2d(signum(to.x - self.x), signum(to.y - self.y))
    }

    /// The number of steps along rows and columns from this square to `to`.
    pub open spec fn distance(self, to: Position) -> int {
        (vstd::math::abs(to.x - self.x) + vstd::math::abs(to.y - self.y)) as int
    }

    /// The number of steps of `d` that lead from this square to `to`, and
    /// zero where no number of them does.
    pub open spec fn steps_along(self, d: Vec2d, to: Position) -> int {
        if self.in_line(to) && self.heading(to) == d {
            self.distance(to)
        } else {
            0
        }
    }

    /// The number of squares that lie in the direction `d` of this one.
    pub open spec fn room(self, d: Vec2d) -> int {
        if d.x == 1 {
            BOARD_WIDTH - 1 - self.x
        } else if d.x == -1 {
            self.x as int
        } else if d.y == 1 {
            BOARD_HEIGHT - 1 - self.y
        } else {
            self.y as int
        }
    }

    /// The square reached by `direction`, if it lies inside the grid.
    pub open spec fn offset(self, direction: Vec2d) -> Option<Position> {
        let x = self.x + direction.x;
        let y = self.y + direction.y;
        if 0 <= x < BOARD_WIDTH && 0 <= y < BOARD_HEIGHT {
            Some(Position { x: x as usize, y: y as usize })
        } else {
            None
        }
    }

    /// Adds `direction`, answering `None` where the sum leaves the grid.
    pub fn checked_add_vec2d(&self, direction: Vec2d) -> (r: Option<Self>)
        ensures
            r == self.offset(direction),
    {
        let new_x: i128 = self.x as i128 + direction.x as i128;
        let new_y: i128 = self.y as i128 + direction.y as i128;
        if new_x < 0 || new_x >= BOARD_WIDTH as i128 {
            return None;
        }
        if new_y < 0 || new_y >= BOARD_HEIGHT as i128 {
            return None;
        }
        Some(Position { x: new_x as usize, y: new_y as usize })
    }
}

/// The sign of `v`.
pub open spec fn signum(v: int) -> int {
    if v > 0 {
        1
    } else if v < 0 {
        -1
    } else {
        0
    }
}

/// `p` lies on the row or the column that joins `a` and `b`, between them
/// and on neither.
pub open spec fn strictly_between(a: Position, p: Position, b: Position) -> bool {
    ||| a.x == b.x && p.x == a.x && (a.y < p.y < b.y || b.y < p.y < a.y)
    ||| a.y == b.y && p.y == a.y && (a.x < p.x < b.x || b.x < p.x < a.x)
}

/// The squares between `from` and a square along `d` are those fewer steps
/// along.
pub proof fn lemma_between_along(from: Position, d: Vec2d, q: Position, p: Position)
    requires
        is_straight_step(d),
        from.steps_along(d, p) >= 1,
    ensures
        strictly_between(from, q, p) <==> 1 <= from.steps_along(d, q) < from.steps_along(d, p),
{
}

/// The sum with an offset that is known to lead to a square of the board;
/// `checked_add_vec2d` is for an offset that may lead off it.
impl std::ops::Add<Vec2d> for Position {
    type Output = Position;

    fn add(self, rhs: Vec2d) -> (sum: Position) {
        let new_x: i128 = self.x as i128 + rhs.x as i128;
        let new_y: i128 = self.y as i128 + rhs.y as i128;
        Position { x: new_x as usize, y: new_y as usize }
    }
}

impl AddSpecImpl<Vec2d> for Position {
    open spec fn obeys_add_spec() -> bool {
        true
    }

    open spec fn add_req(self, rhs: Vec2d) -> bool {
        self.offset(rhs) is Some
    }

    open spec fn add_spec(self, rhs: Vec2d) -> Position {
        self.offset(rhs).unwrap()
    }
}

impl std::ops::AddAssign<Vec2d> for Position {
    fn add_assign(&mut self, rhs: Vec2d)
        requires
            old(self).offset(rhs) is Some,
        ensures
            Some(*final(self)) == old(self).offset(rhs),
    {
        let new_x: i128 = self.x as i128 + rhs.x as i128;
        let new_y: i128 = self.y as i128 + rhs.y as i128;
        self.x = new_x as usize;
        self.y = new_y as usize;
    }
}

/// The test that keeps the squares listed in `allowed`.
pub open spec fn listed_in(allowed: Seq<Position>) -> spec_fn(Position) -> bool {
    |p: Position| allowed.contains(p)
}

/// The squares of `s` that `allowed` lists, in the order of `s`.
pub open spec fn kept(s: Seq<Position>, allowed: Seq<Position>) -> Seq<Position> {
    s.filter(listed_in(allowed))
}

/// The squares that `options` holds, in order, the empty entries left out.
pub open spec fn present(options: Seq<Option<Position>>) -> Seq<Position> {
    options.filter_map(|o: Option<Position>| o)
}

/// Whether `needle` occurs in `squares`.
pub fn contains_position(squares: &[Position], needle: Position) -> (found: bool)
    ensures
        found == squares@.contains(needle),
{
    let mut i: usize = 0;
    while i < squares.len()
        invariant
            i <= squares.len(),
            forall|j: int| 0 <= j < i ==> squares@[j] != needle,
        decreases squares.len() - i,
    {
        if squares[i] == needle {
            return true;
        }
        i += 1;
    }
    false
}

/// Whether some entry of `options` holds `needle`.
pub fn holds_position(options: &[Option<Position>], needle: Position) -> (found: bool)
    ensures
        found == options@.contains(Some(needle)),
{
    let mut i: usize = 0;
    while i < options.len()
        invariant
            i <= options.len(),
            forall|j: int| 0 <= j < i ==> options@[j] != Some(needle),
        decreases options.len() - i,
    {
        if let Some(p) = options[i] {
            if p == needle {
                return true;
            }
        }
        i += 1;
    }
    false
}

/// The squares of the longer slice that the shorter one lists too, in the
/// order of the longer; `b` counts as the longer where the lengths agree.
pub fn intersection<'a>(a: &'a [Position], b: &'a [Position]) -> (common: Vec<&'a Position>)
    ensures
        ({
            let expected = if a@.len() <= b@.len() {
                kept(b@, a@)
            } else {
                kept(a@, b@)
            };
            &&& common@.len() == expected.len()
            &&& forall|i: int| 0 <= i < expected.len() ==> *common@[i] == expected[i]
        }),
{
    let (smaller, larger) = if a.len() <= b.len() {
        (a, b)
    } else {
        (b, a)
    };
    let mut common: Vec<&'a Position> = Vec::new();
    let mut i: usize = 0;
    while i < larger.len()
        invariant
            i <= larger.len(),
            common@.len() == kept(larger@.take(i as int), smaller@).len(),
            forall|j: int|
                0 <= j < common@.len() ==> *common@[j] == kept(larger@.take(i as int), smaller@)[j],
        decreases larger.len() - i,
    {
        proof {
            assert(larger@.take(i + 1) == larger@.take(i as int).push(larger@[i as int]));
            larger@.take(i as int).lemma_filter_push(larger@[i as int], listed_in(smaller@));
        }
        if contains_position(smaller, larger[i]) {
            common.push(&larger[i]);
        }
        i += 1;
    }
    proof {
        assert(larger@.take(i as int) == larger@);
    }
    common
}

/// The squares present in `b` that `a` lists, in the order of `b`.
pub fn intersection_option(a: &[Position], b: &[Option<Position>]) -> (common: Vec<Position>)
    ensures
        common@ == kept(present(b@), a@),
{
    let mut common: Vec<Position> = Vec::new();
    let mut i: usize = 0;
    while i < b.len()
        invariant
            i <= b.len(),
            common@ == kept(present(b@.take(i as int)), a@),
        decreases b.len() - i,
    {
        proof {
            b@.lemma_filter_map_take_succ(|o: Option<Position>| o, i as int);
            if let Some(p) = b@[i as int] {
                assert(present(b@.take(i + 1)) == present(b@.take(i as int)).push(p));
                present(b@.take(i as int)).lemma_filter_push(p, listed_in(a@));
            }
        }
        if let Some(p) = b[i] {
            if contains_position(a, p) {
                common.push(p);
            }
        }
        i += 1;
    }
    proof {
        assert(b@.take(i as int) == b@);
    }
    common
}

/// The squares present in `b` that are present in `a` too, in the order of `b`.
pub fn intersection_options(a: &[Option<Position>], b: &[Option<Position>]) -> (common: Vec<
    Position,
>)
    ensures
        common@ == kept(present(b@), present(a@)),
{
    let mut common: Vec<Position> = Vec::new();
    let mut i: usize = 0;
    while i < b.len()
        invariant
            i <= b.len(),
            common@ == kept(present(b@.take(i as int)), present(a@)),
        decreases b.len() - i,
    {
        proof {
            b@.lemma_filter_map_take_succ(|o: Option<Position>| o, i as int);
            if let Some(p) = b@[i as int] {
                assert(present(b@.take(i + 1)) == present(b@.take(i as int)).push(p));
                present(b@.take(i as int)).lemma_filter_push(p, listed_in(present(a@)));
                lemma_present_contains(a@, p);
            }
        }
        if let Some(p) = b[i] {
            if holds_position(a, p) {
                common.push(p);
            }
        }
        i += 1;
    }
    proof {
        assert(b@.take(i as int) == b@);
    }
    common
}

/// A square is among the present ones exactly where some entry holds it.
pub proof fn lemma_present_contains(options: Seq<Option<Position>>, p: Position)
    ensures
        present(options).contains(p) <==> options.contains(Some(p)),
    decreases options.len(),
{
    if options.len() > 0 {
        let rest = options.drop_last();
        lemma_present_contains(rest, p);
        if options.contains(Some(p)) {
            let i = choose|i: int| 0 <= i < options.len() && options[i] == Some(p);
            if i < rest.len() {
                assert(rest[i] == Some(p));
                let j = choose|j: int| 0 <= j < present(rest).len() && present(rest)[j] == p;
                assert(present(options)[j] == p);
            } else {
                assert(present(options)[present(rest).len() as int] == p);
            }
        }
    }
}

/// No two entries of `options` hold the same square.
pub open spec fn distinct_squares(options: Seq<Option<Position>>) -> bool {
    forall|i: int, j: int|
        0 <= i < j < options.len() && options[i] is Some ==> options[i] != options[j]
}

/// What `intersection_option` hands out: no more squares than there are
/// options, exactly those that both arguments hold, and none twice where no
/// two options hold the same square.
pub proof fn lemma_kept_present(a: Seq<Position>, b: Seq<Option<Position>>)
    ensures
        kept(present(b), a).len() <= b.len(),
        forall|p: Position|
            kept(present(b), a).contains(p) <==> a.contains(p) && b.contains(Some(p)),
        distinct_squares(b) ==> kept(present(b), a).no_duplicates(),
    decreases b.len(),
{
    if b.len() > 0 {
        let all = kept(present(b), a);
        let rest = b.drop_last();
        let sub = kept(present(rest), a);
        lemma_kept_present(a, rest);
        assert forall|p: Position| b.contains(Some(p)) <==> rest.contains(Some(p)) || b.last()
            == Some(p) by {
            if b.contains(Some(p)) {
                let i = choose|i: int| 0 <= i < b.len() && b[i] == Some(p);
                if i < rest.len() {
                    assert(rest[i] == Some(p));
                }
            }
        }
        if let Some(q) = b.last() {
            assert(present(b) == present(rest).push(q));
            present(rest).lemma_filter_push(q, listed_in(a));
            if a.contains(q) {
                assert forall|p: Position| all.contains(p) <==> sub.contains(p) || p == q by {
                    if sub.contains(p) {
                        let i = choose|i: int| 0 <= i < sub.len() && sub[i] == p;
                        assert(all[i] == p);
                    }
                    if p == q {
                        assert(all[sub.len() as int] == p);
                    }
                }
            }
        }
    }
}

} // verus!
