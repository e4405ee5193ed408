use vstd::prelude::*;
use vstd::std_specs::ops::AddSpecImpl;

verus! {

/// A signed two-dimensional offset between board squares.
#[derive(Debug, PartialEq, Eq, Clone, Copy, Structural)]
pub struct Vec2d {
    pub x: i8,
    pub y: i8,
}

/// The offset with the components `x` and `y`.
pub open spec fn vec2d(x: int, y: int) -> Vec2d {
    Vec2d { x: x as i8, y: y as i8 }
}

/// One step along a row or a column.
pub open spec fn is_straight_step(d: Vec2d) -> bool {
    ||| d.x == 0 && (d.y == 1 || d.y == -1)
    ||| d.y == 0 && (d.x == 1 || d.x == -1)
}

impl Vec2d {
    /// Both components of the sum with `rhs` fit the component type.
    pub open spec fn fits_with(self, rhs: Vec2d) -> bool {
        &&& i8::MIN <= self.x + rhs.x <= i8::MAX
        &&& i8::MIN <= self.y + rhs.y <= i8::MAX
    }

    /// The componentwise sum.
    pub open spec fn plus(self, rhs: Vec2d) -> Vec2d {
        vec2d(self.x + rhs.x, self.y + rhs.y)
    }
}

/// The componentwise sum, for offsets whose sum fits.
impl std::ops::Add<Vec2d> for Vec2d {
    type Output = Vec2d;

    fn add(self, rhs: Vec2d) -> (sum: Vec2d) {
        Vec2d { x: self.x + rhs.x, y: self.y + rhs.y }
    }
}

impl AddSpecImpl<Vec2d> for Vec2d {
    open spec fn obeys_add_spec() -> bool {
        true
    }

    open spec fn add_req(self, rhs: Vec2d) -> bool {
        self.fits_with(rhs)
    }

    open spec fn add_spec(self, rhs: Vec2d) -> Vec2d {
        self.plus(rhs)
    }
}

impl std::ops::AddAssign<Vec2d> for Vec2d {
    fn add_assign(&mut self, rhs: Vec2d)
        requires
            old(self).fits_with(rhs),
        ensures
            *final(self) == old(self).plus(rhs),
    {
        self.x = self.x + rhs.x;
        self.y = self.y + rhs.y;
    }
}

} // verus!
