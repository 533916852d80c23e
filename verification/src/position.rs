//! Axis-aligned rectangle geometry: edge accessors, point containment and
//! the squared distance used to rank screens by closeness.

use vstd::prelude::*;

verus! {

/// An axis-aligned rectangle: a corner position and a non-negative extent.
#[derive(Clone, Copy, Debug, PartialEq, Eq, Hash, Structural)]
pub struct Position {
    pub x: i32,
    pub y: i32,
    pub width: u32,
    pub height: u32,
}

impl Position {
    /// The right and bottom edges (`x + width`, `y + height`) must be
    /// representable, or the edge accessors would overflow.
    pub open spec fn wf(self) -> bool {
        &&& self.x + self.width <= i32::MAX
        &&& self.y + self.height <= i32::MAX
    }

    pub open spec fn spec_left(self) -> int {
        self.x as int
    }

    pub open spec fn spec_right(self) -> int {
        self.x + self.width
    }

    pub open spec fn spec_top(self) -> int {
        self.y as int
    }

    pub open spec fn spec_bottom(self) -> int {
        self.y + self.height
    }

    pub fn new(x: i32, y: i32, width: u32, height: u32) -> (r: Self)
        ensures
            r == (Position { x, y, width, height }),
    {
        Position { x, y, width, height }
    }

    /// The right edge: the starting x position plus the width.
    pub fn right(&self) -> (r: i32)
        requires
            self.wf(),
        ensures
            r == self.spec_right(),
    {
        ((self.x as i64) + (self.width as i64)) as i32
    }

    /// The left edge; this exists mainly to have a better name than `x`.
    pub fn left(&self) -> (r: i32)
        ensures
            r == self.spec_left(),
    {
        self.x
    }

    pub fn bottom(&self) -> (r: i32)
        requires
            self.wf(),
        ensures
            r == self.spec_bottom(),
    {
        ((self.y as i64) + (self.height as i64)) as i32
    }

    pub fn top(&self) -> (r: i32)
        ensures
            r == self.spec_top(),
    {
        self.y
    }
}

/// A point lies inside a rectangle when each coordinate falls in the
/// half-open interval from the near edge (inclusive) to the far edge
/// (exclusive); a point exactly on the right or bottom edge is outside.
pub open spec fn spec_cursor_inside(x: int, y: int, position: Position) -> bool {
    &&& position.spec_left() <= x < position.spec_right()
    &&& position.spec_top() <= y < position.spec_bottom()
}

/// Half-open containment test used to decide which screen a pointer is on.
pub fn is_cursor_inside(x: i32, y: i32, position: &Position) -> (r: bool)
    requires
        position.wf(),
    ensures
        r == spec_cursor_inside(x as int, y as int, *position),
{
    x >= position.x && x < position.right() && y >= position.y && y < position.bottom()
}

/// The squared Euclidean distance between two points. The square root is
/// monotone, so comparing squared distances orders points exactly as the
/// distances themselves do.
pub open spec fn spec_distance_squared(x1: int, y1: int, x2: int, y2: int) -> int {
    (x2 - x1) * (x2 - x1) + (y2 - y1) * (y2 - y1)
}

/// Computes the squared distance between two cartesian points.
pub fn distance_squared(x1: i32, y1: i32, x2: i32, y2: i32) -> (r: u128)
    ensures
        r == spec_distance_squared(x1 as int, y1 as int, x2 as int, y2 as int),
{
    let dx: i128 = (x2 as i128) - (x1 as i128);
    let dy: i128 = (y2 as i128) - (y1 as i128);
    proof {
        assert(0 <= dx * dx <= 0x1_0000_0000_0000_0000i128 && 0 <= dy * dy
            <= 0x1_0000_0000_0000_0000i128) by (nonlinear_arith)
            requires
                -(0x1_0000_0000i128) < dx < 0x1_0000_0000i128,
                -(0x1_0000_0000i128) < dy < 0x1_0000_0000i128,
        ;
    }
    ((dx * dx) + (dy * dy)) as u128
}

} // verus!
