//! How the ball changes course: off the paddle, and off a block.

use vstd::prelude::*;
use crate::field::{in_limits, Rect, BALL_RADIUS};
use crate::level::{BALL_SPEED, MAX_BALL_SPEED};

verus! {

/// Sub-units of distance from the paddle's centre that add one sub-unit to
/// the ball's horizontal velocity.
pub const DEFLECTION: i64 = 20;

/// The ball's horizontal velocity stays this far, a tenth of a unit, below
/// the level's speed, so that the ball never travels level.
pub const SPEED_MARGIN: i64 = 100_000;

/// `r` is the integer square root of `n`: the largest number whose square
/// is at most `n`.
pub open spec fn is_root(r: nat, n: nat) -> bool {
    r * r <= n < (r + 1) * (r + 1)
}

/// The integer square root of `n`.
pub open spec fn isqrt(n: nat) -> nat {
    choose|r: nat| is_root(r, n)
}

/// `isqrt(n)` is a root of `n`: there is one for every `n`.
pub proof fn lemma_isqrt(n: nat)
    ensures
        is_root(isqrt(n), n),
    decreases n,
{
    if n == 0 {
        assert(is_root(0, n)) by (nonlinear_arith)
            requires
                n == 0,
        ;
    } else {
        lemma_isqrt((n - 1) as nat);
        let p = isqrt((n - 1) as nat);
        let r: nat = if (p + 1) * (p + 1) <= n { p + 1 } else { p };
        assert(r * r <= n < (r + 1) * (r + 1)) by (nonlinear_arith)
            requires
                p * p <= n - 1 < (p + 1) * (p + 1),
                r == if (p + 1) * (p + 1) <= n { p + 1 } else { p },
        ;
        assert(is_root(r, n));
    }
}

/// A number has one integer square root only.
pub proof fn lemma_isqrt_unique(n: nat, r: nat)
    requires
        is_root(r, n),
    ensures
        isqrt(n) == r,
{
    lemma_isqrt(n);
    let q = isqrt(n);
    assert(q == r) by (nonlinear_arith)
        requires
            r * r <= n < (r + 1) * (r + 1),
            q * q <= n < (q + 1) * (q + 1),
    ;
}

/// Computes the integer square root of `n`.
pub fn int_sqrt(n: u128) -> (r: u64)
    ensures
        r == isqrt(n as nat),
{
    let mut lo: u128 = 0;
    let mut hi: u128 = 0x1_0000_0000_0000_0000;
    assert(n < hi * hi) by (nonlinear_arith)
        requires
            hi == 0x1_0000_0000_0000_0000,
            n <= u128::MAX,
    ;
    while hi - lo > 1
        invariant
            lo < hi <= 0x1_0000_0000_0000_0000,
            lo * lo <= n < hi * hi,
        decreases hi - lo,
    {
        let mid: u128 = lo + (hi - lo) / 2;
        assert(mid * mid <= u128::MAX) by (nonlinear_arith)
            requires
                mid <= 0xffff_ffff_ffff_ffff,
        ;
        if mid * mid <= n {
            lo = mid;
        } else {
            hi = mid;
        }
    }
    proof {
        lemma_isqrt_unique(n as nat, lo as nat);
    }
    lo as u64
}

/// Division that rounds towards zero.
pub open spec fn toward_zero(a: int, d: int) -> int {
    if a >= 0 {
        a / d
    } else {
        -((-a) / d)
    }
}

/// `v` held between `lo` and `hi`.
pub open spec fn clamped(v: int, lo: int, hi: int) -> int {
    if v < lo {
        lo
    } else if v > hi {
        hi
    } else {
        v
    }
}

/// The velocity with which the ball leaves the paddle.
///
/// The ball turns upwards. Where it struck off the paddle's centre, its
/// horizontal velocity changes by the distance `offset` from the centre over
/// [`DEFLECTION`], held within [`SPEED_MARGIN`] of `speed`, and its vertical
/// velocity is what is left of `speed`: the direction changes, the speed
/// does not.
pub open spec fn deflected(velocity: (int, int), offset: int, speed: int) -> (int, int) {
    let ratio = toward_zero(offset, DEFLECTION as int);
    if ratio == 0 {
        (velocity.0, -velocity.1)
    } else {
        let vx = clamped(velocity.0 + ratio, SPEED_MARGIN - speed, speed - SPEED_MARGIN);
        (vx, -(isqrt((speed * speed - vx * vx) as nat) as int))
    }
}

/// A velocity is at the speed `speed` when its horizontal part and `speed`
/// give its vertical part, up to the rounding of the square root.
pub open spec fn at_speed(velocity: (int, int), speed: int) -> bool {
    let (vx, vy) = velocity;
    let up = if vy < 0 { -vy } else { vy };
    vx * vx + up * up <= speed * speed < vx * vx + (up + 1) * (up + 1)
}

/// How close to the level's speed the ball stays: the square of its speed
/// falls short of the square of the level's by one part in this many at
/// most.
pub const TOLERANCE: i64 = 1_000_000;

/// The velocity's speed is the speed `speed`, or less by no more than the
/// [`TOLERANCE`] allows.
pub open spec fn close_to_speed(velocity: (int, int), speed: int) -> bool {
    let gap = speed * speed - (velocity.0 * velocity.0 + velocity.1 * velocity.1);
    0 <= gap && TOLERANCE * gap <= speed * speed
}

/// A velocity at the speed `speed` is close to it: the rounding of the
/// square root costs less than the tolerance.
pub proof fn lemma_at_speed_is_close(velocity: (int, int), speed: int)
    requires
        BALL_SPEED <= speed,
        at_speed(velocity, speed),
    ensures
        close_to_speed(velocity, speed),
{
    let (vx, vy) = velocity;
    let up = if vy < 0 { -vy } else { vy };
    let gap = speed * speed - (vx * vx + vy * vy);
    assert(vy * vy == up * up) by (nonlinear_arith)
        requires
            up == vy || up == -vy,
    ;
    assert(0 <= gap <= 2 * up && up <= speed) by (nonlinear_arith)
        requires
            vx * vx + up * up <= speed * speed < vx * vx + (up + 1) * (up + 1),
            gap == speed * speed - (vx * vx + up * up),
            0 <= up,
            0 <= speed,
    ;
    assert(TOLERANCE * gap <= speed * speed) by (nonlinear_arith)
        requires
            0 <= gap <= 2 * speed,
            2 * TOLERANCE <= speed,
    ;
}

/// Both parts of the velocity are within `speed`.
pub open spec fn within_speed(velocity: (int, int), speed: int) -> bool {
    &&& -speed <= velocity.0 <= speed
    &&& -speed <= velocity.1 <= speed
}

/// The velocity with which the ball leaves the paddle that it struck at the
/// distance `offset` from the paddle's centre.
pub fn deflect(velocity: (i64, i64), offset: i64, speed: i64) -> (out: (i64, i64))
    requires
        BALL_SPEED <= speed <= MAX_BALL_SPEED,
        within_speed((velocity.0 as int, velocity.1 as int), speed as int),
        offset > i64::MIN,
    ensures
        (out.0 as int, out.1 as int) == deflected(
            (velocity.0 as int, velocity.1 as int),
            offset as int,
            speed as int,
        ),
        within_speed((out.0 as int, out.1 as int), speed as int),
        velocity.1 > 0 ==> out.1 < 0,
        toward_zero(offset as int, DEFLECTION as int) != 0 ==> at_speed(
            (out.0 as int, out.1 as int),
            speed as int,
        ) && close_to_speed((out.0 as int, out.1 as int), speed as int),
{
    let ratio: i64 = offset / DEFLECTION;
    if ratio == 0 {
        (velocity.0, -velocity.1)
    } else {
        let pushed: i64 = velocity.0 + ratio;
        let vx: i64 = if pushed < SPEED_MARGIN - speed {
            SPEED_MARGIN - speed
        } else if pushed > speed - SPEED_MARGIN {
            speed - SPEED_MARGIN
        } else {
            pushed
        };
        let s: u128 = speed as u128;
        let a: u128 = if vx < 0 { (-vx) as u128 } else { vx as u128 };
        assert(a * a <= s * s <= MAX_BALL_SPEED * MAX_BALL_SPEED) by (nonlinear_arith)
            requires
                a <= s <= MAX_BALL_SPEED,
        ;
        assert(a * a == vx * vx) by (nonlinear_arith)
            requires
                a == vx || a == -vx,
        ;
        let root: u64 = int_sqrt(s * s - a * a);
        proof {
            lemma_isqrt((s * s - a * a) as nat);
            assert(root <= s) by (nonlinear_arith)
                requires
                    root * root <= s * s - a * a,
                    0 <= a,
                    0 <= s,
                    0 <= root,
            ;
            assert(root > 0) by (nonlinear_arith)
                requires
                    s * s - a * a < (root + 1) * (root + 1),
                    0 <= a <= s - SPEED_MARGIN,
                    0 <= root,
            ;
            lemma_at_speed_is_close((vx as int, -(root as int)), speed as int);
        }
        (vx, -(root as i64))
    }
}

/// The side of a block that the ball struck.
#[derive(Clone, Copy, Debug, PartialEq, Eq, Structural)]
pub enum Bounce {
    /// The ball came from below.
    Bottom,
    /// The ball came from above.
    Top,
    /// The ball came from the left.
    Left,
    /// The ball came from the right.
    Right,
}

/// The ball's bounding square overlaps the rectangle.
pub open spec fn touches(rect: Rect, ball: (int, int)) -> bool {
    &&& rect.x <= ball.0 + BALL_RADIUS
    &&& rect.right() >= ball.0 - BALL_RADIUS
    &&& rect.y <= ball.1 + BALL_RADIUS
    &&& rect.bottom() >= ball.1 - BALL_RADIUS
}

/// The side from which a ball at `ball`, moving with `velocity`, struck the
/// rectangle: from below if it rises and its centre is under the bottom
/// edge; else from above if it falls and its centre is over the top edge;
/// else from the right if it moves left and its centre is beyond the right
/// edge; else from the left.
pub open spec fn struck_side(rect: Rect, ball: (int, int), velocity: (int, int)) -> Bounce {
    if velocity.1 < 0 && ball.1 > rect.bottom() {
        Bounce::Bottom
    } else if velocity.1 > 0 && ball.1 < rect.y {
        Bounce::Top
    } else if velocity.0 < 0 && ball.0 > rect.right() {
        Bounce::Right
    } else {
        Bounce::Left
    }
}

/// The velocity after a bounce: off the top or the bottom of a block the
/// ball turns round vertically, off its sides horizontally; without a bounce
/// it keeps its course.
pub open spec fn reflected(velocity: (int, int), bounce: Option<Bounce>) -> (int, int) {
    match bounce {
        Some(Bounce::Bottom) | Some(Bounce::Top) => (velocity.0, -velocity.1),
        Some(Bounce::Left) | Some(Bounce::Right) => (-velocity.0, velocity.1),
        None => velocity,
    }
}

/// The square that stands for the ball in the tests against blocks.
pub fn ball_rect(ball: (i64, i64)) -> (area: Rect)
    requires
        in_limits((ball.0 as int, ball.1 as int)),
    ensures
        area == (Rect {
            x: (ball.0 - BALL_RADIUS) as i64,
            y: (ball.1 - BALL_RADIUS) as i64,
            w: (2 * BALL_RADIUS) as i64,
            h: (2 * BALL_RADIUS) as i64,
        }),
        forall|rect: Rect| rect.spec_overlaps(&area) == touches(rect, (ball.0 as int, ball.1 as int)),
{
    Rect {
        x: ball.0 - BALL_RADIUS,
        y: ball.1 - BALL_RADIUS,
        w: BALL_RADIUS * 2,
        h: BALL_RADIUS * 2,
    }
}

/// The side from which the ball struck the rectangle.
pub fn bounce_side(rect: &Rect, ball: (i64, i64), velocity: (i64, i64)) -> (side: Bounce)
    ensures
        side == struck_side(
            *rect,
            (ball.0 as int, ball.1 as int),
            (velocity.0 as int, velocity.1 as int),
        ),
{
    let bottom: i128 = rect.y as i128 + rect.h as i128;
    let right: i128 = rect.x as i128 + rect.w as i128;
    if velocity.1 < 0 && ball.1 as i128 > bottom {
        Bounce::Bottom
    } else if velocity.1 > 0 && ball.1 < rect.y {
        Bounce::Top
    } else if velocity.0 < 0 && ball.0 as i128 > right {
        Bounce::Right
    } else {
        Bounce::Left
    }
}

/// The velocity after the bounce.
pub fn reflect(velocity: (i64, i64), bounce: Option<Bounce>) -> (out: (i64, i64))
    requires
        velocity.0 > i64::MIN,
        velocity.1 > i64::MIN,
    ensures
        (out.0 as int, out.1 as int) == reflected((velocity.0 as int, velocity.1 as int), bounce),
{
    match bounce {
        Some(Bounce::Bottom) => (velocity.0, -velocity.1),
        Some(Bounce::Top) => (velocity.0, -velocity.1),
        Some(Bounce::Left) => (-velocity.0, velocity.1),
        Some(Bounce::Right) => (-velocity.0, velocity.1),
        None => velocity,
    }
}

} // verus!
