//! The play field: its unit of length, its fixed dimensions, and rectangles.

use vstd::prelude::*;

verus! {

/// Sub-units per logical unit of the field.
pub const UNIT: i64 = 1_000_000;

/// Width of the field.
pub const WIDTH: i64 = 800_000_000;

/// Height of the field.
pub const HEIGHT: i64 = 450_000_000;

/// Width of a block's cell.
pub const BLOCK_WIDTH: i64 = 40_000_000;

/// Height of a block's cell.
pub const BLOCK_HEIGHT: i64 = 20_000_000;

/// Outer width of the paddle, rounded ends included.
pub const PADDLE_WIDTH: i64 = 80_000_000;

/// Height of the paddle.
pub const PADDLE_HEIGHT: i64 = 20_000_000;

/// Width of the paddle's flat middle part.
pub const PADDLE_INNERWIDTH: i64 = 60_000_000;

/// How far beyond the paddle's outer width the ball still touches it, and
/// how far the paddle keeps from the side walls.
pub const PADDLE_MARGIN: i64 = 10_000_000;

/// Leftmost position of the paddle's centre: half the paddle plus the margin.
pub const LIMIT_LEFT: i64 = 50_000_000;

/// Rightmost position of the paddle's centre.
pub const LIMIT_RIGHT: i64 = 750_000_000;

/// The line the paddle's top lies on.
pub const PADDLE_LINE: i64 = 400_000_000;

/// The ball is lost once its lower edge is below this line.
pub const FLOOR_LINE: i64 = 420_000_000;

/// Height of the ball's centre while it rests on the paddle.
pub const REST_LINE: i64 = 390_000_000;

/// Radius of the ball.
pub const BALL_RADIUS: i64 = 10_000_000;

/// Positions are held within this distance of the field's origin, so that
/// the field's arithmetic stays within the machine's integers: a ball that
/// has strayed so far, a million million units, goes no farther.
pub const POSITION_LIMIT: i64 = 1_000_000_000_000_000_000;

/// Both coordinates are within [`POSITION_LIMIT`].
pub open spec fn in_limits(point: (int, int)) -> bool {
    &&& -POSITION_LIMIT <= point.0 <= POSITION_LIMIT
    &&& -POSITION_LIMIT <= point.1 <= POSITION_LIMIT
}

/// `x` held within [`POSITION_LIMIT`].
pub open spec fn held(x: int) -> int {
    if x < -POSITION_LIMIT {
        -POSITION_LIMIT as int
    } else if x > POSITION_LIMIT {
        POSITION_LIMIT as int
    } else {
        x
    }
}

/// A rectangle of the field with its top-left corner, width and height.
#[derive(Clone, Copy, Debug, PartialEq, Eq, Structural)]
pub struct Rect {
    pub x: i64,
    pub y: i64,
    pub w: i64,
    pub h: i64,
}

impl Rect {
    /// The right edge.
    pub open spec fn right(self) -> int {
        self.x + self.w
    }

    /// The bottom edge.
    pub open spec fn bottom(self) -> int {
        self.y + self.h
    }

    /// Two rectangles overlap when neither lies wholly to one side of the
    /// other; rectangles that only share an edge or a corner overlap.
    pub open spec fn spec_overlaps(&self, other: &Rect) -> bool {
        &&& self.x <= other.right()
        &&& self.right() >= other.x
        &&& self.y <= other.bottom()
        &&& self.bottom() >= other.y
    }

    /// Whether `self` and `other` overlap.
    #[verifier::when_used_as_spec(spec_overlaps)]
    pub fn overlaps(&self, other: &Rect) -> (hit: bool)
        ensures
            hit == self.spec_overlaps(other),
    {
        let left: i128 = self.x as i128;
        let right: i128 = self.x as i128 + self.w as i128;
        let top: i128 = self.y as i128;
        let bottom: i128 = self.y as i128 + self.h as i128;
        let other_right: i128 = other.x as i128 + other.w as i128;
        let other_bottom: i128 = other.y as i128 + other.h as i128;
        left <= other_right && right >= other.x as i128 && top <= other_bottom
            && bottom >= other.y as i128
    }
}

} // verus!
