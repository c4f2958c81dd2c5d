//! What holds of a level in play, whatever happens to it.
//!
//! The laws speak of [`PlayView`], the state that the contracts of
//! [`PlayState`](crate::play::PlayState) speak of, and of sequences of
//! events: frames and key presses, in any order.

use vstd::prelude::*;
use crate::field::{BALL_RADIUS, LIMIT_LEFT, LIMIT_RIGHT, WIDTH};
use crate::level::{
    cells_for, lemma_layout_wf, lemma_speed_bounds, Block, BALL_SPEED, NUM_LEVELS,
};
use crate::motion::{
    at_speed, close_to_speed, deflected, isqrt, lemma_at_speed_is_close, lemma_isqrt,
    toward_zero, within_speed, DEFLECTION, SPEED_MARGIN,
};
use crate::play::{
    lemma_filter_keeps, lemma_filter_split, missed_by, Contact, Key, PlayMode, PlayView,
    RAMP_DOWN, RAMP_UNIT, RAMP_UP,
};

verus! {

/// What can happen to a level in play.
pub enum Event {
    /// A frame passes.
    Frame,
    /// A key is pressed; the flag says that it is held.
    Press(Key, bool),
}

impl PlayView {
    /// The state after the event.
    pub open spec fn after(self, event: Event) -> PlayView {
        match event {
            Event::Frame => self.after_frame(),
            Event::Press(key, repeat) => self.after_key(key, repeat),
        }
    }

    /// The state after the events, the first of them first.
    pub open spec fn after_all(self, events: Seq<Event>) -> PlayView
        decreases events.len(),
    {
        if events.len() == 0 {
            self
        } else {
            self.after_all(events.drop_last()).after(events.last())
        }
    }

    /// The ball is between the side walls, or will be after the next frame.
    pub open spec fn contained(self) -> bool {
        self.mode == PlayMode::Running ==> between_walls(self.ball.0) || between_walls(
            self.moved().ball.0,
        )
    }
}

/// The ball, with its centre at `x`, touches neither side wall.
pub open spec fn between_walls(x: int) -> bool {
    BALL_RADIUS < x < WIDTH - BALL_RADIUS
}

/// The ball leaves the paddle within the level's speed.
pub proof fn lemma_deflected_within_speed(velocity: (int, int), offset: int, speed: int)
    requires
        BALL_SPEED <= speed,
        within_speed(velocity, speed),
    ensures
        within_speed(deflected(velocity, offset, speed), speed),
{
    let out = deflected(velocity, offset, speed);
    if toward_zero(offset, DEFLECTION as int) != 0 {
        let vx = out.0;
        let rest = (speed * speed - vx * vx) as nat;
        assert(vx * vx <= speed * speed) by (nonlinear_arith)
            requires
                -speed <= vx <= speed,
        ;
        lemma_isqrt(rest);
        let root = isqrt(rest);
        assert(root <= speed) by (nonlinear_arith)
            requires
                root * root <= speed * speed - vx * vx,
                0 <= speed,
        ;
    }
}

/// Where the paddle turns the ball aside, the ball leaves at the level's
/// speed, up to the rounding of the square root, which is less than a
/// millionth of the speed's square: the paddle changes the ball's direction
/// and not its speed.
pub proof fn lemma_deflected_at_speed(velocity: (int, int), offset: int, speed: int)
    requires
        BALL_SPEED <= speed,
        within_speed(velocity, speed),
        toward_zero(offset, DEFLECTION as int) != 0,
    ensures
        at_speed(deflected(velocity, offset, speed), speed),
        close_to_speed(deflected(velocity, offset, speed), speed),
{
    lemma_deflected_at_speed_only(velocity, offset, speed);
    lemma_at_speed_is_close(deflected(velocity, offset, speed), speed);
}

proof fn lemma_deflected_at_speed_only(velocity: (int, int), offset: int, speed: int)
    requires
        BALL_SPEED <= speed,
        within_speed(velocity, speed),
        toward_zero(offset, DEFLECTION as int) != 0,
    ensures
        at_speed(deflected(velocity, offset, speed), speed),
{
    let vx = deflected(velocity, offset, speed).0;
    assert(vx * vx <= speed * speed) by (nonlinear_arith)
        requires
            -speed <= vx <= speed,
    ;
    lemma_isqrt((speed * speed - vx * vx) as nat);
}

/// No contact takes the ball farther from the level's speed than the
/// tolerance allows: the walls and the blocks leave the speed as it is, and
/// the paddle sets it anew.
pub proof fn lemma_collided_close_to_speed(s: PlayView)
    requires
        s.valid(),
        close_to_speed(s.velocity, s.speed),
    ensures
        close_to_speed(s.collided().velocity, s.speed),
        s.collided().speed == s.speed,
{
    lemma_speed_bounds(s.index);
    let (vx, vy) = s.velocity;
    let out = s.collided().velocity;
    if s.contact() == Contact::Paddle && toward_zero(s.ball.0 - s.paddle, DEFLECTION as int) != 0 {
        lemma_deflected_at_speed(s.velocity, s.ball.0 - s.paddle, s.speed);
    } else {
        assert(out.0 * out.0 == vx * vx && out.1 * out.1 == vy * vy) by (nonlinear_arith)
            requires
                out.0 == vx || out.0 == -vx,
                out.1 == vy || out.1 == -vy,
        ;
    }
}

/// The paddle sends a falling ball upwards.
pub proof fn lemma_paddle_sends_up(s: PlayView)
    requires
        s.valid(),
        s.contact() == Contact::Paddle,
    ensures
        s.collided().velocity.1 < 0,
{
    lemma_speed_bounds(s.index);
    let vx = deflected(s.velocity, s.ball.0 - s.paddle, s.speed).0;
    if toward_zero(s.ball.0 - s.paddle, DEFLECTION as int) != 0 {
        let rest = (s.speed * s.speed - vx * vx) as nat;
        let speed = s.speed;
        assert(vx * vx < speed * speed) by (nonlinear_arith)
            requires
                SPEED_MARGIN - speed <= vx <= speed - SPEED_MARGIN,
                SPEED_MARGIN < speed,
        ;
        lemma_isqrt(rest);
        let root = isqrt(rest);
        assert(root > 0) by (nonlinear_arith)
            requires
                rest < (root + 1) * (root + 1),
                rest >= 1,
        ;
    }
}

/// No contact changes the ball's speed: a ball at the level's speed is at
/// the level's speed after its contact is resolved.
pub proof fn lemma_collided_at_speed(s: PlayView)
    requires
        s.valid(),
        at_speed(s.velocity, s.speed),
    ensures
        at_speed(s.collided().velocity, s.speed),
        s.collided().speed == s.speed,
{
    lemma_speed_bounds(s.index);
    let (vx, vy) = s.velocity;
    let out = s.collided().velocity;
    if s.contact() == Contact::Paddle && toward_zero(s.ball.0 - s.paddle, DEFLECTION as int) != 0 {
        lemma_deflected_at_speed(s.velocity, s.ball.0 - s.paddle, s.speed);
    } else {
        assert(out.0 * out.0 == vx * vx) by (nonlinear_arith)
            requires
                out.0 == vx || out.0 == -vx,
        ;
    }
}

/// Every state of a level in play stays valid when the ball's contact is
/// resolved.
pub proof fn lemma_collided_valid(s: PlayView)
    requires
        s.valid(),
    ensures
        s.collided().valid(),
{
    lemma_speed_bounds(s.index);
    lemma_deflected_within_speed(s.velocity, s.ball.0 - s.paddle, s.speed);
    lemma_filter_keeps(s.blocks, missed_by(s.ball));
    lemma_filter_split(s.blocks, s.ball);
}

/// Every event leaves a valid state valid.
pub proof fn lemma_valid_after(s: PlayView, event: Event)
    requires
        s.valid(),
    ensures
        s.after(event).valid(),
{
    match event {
        Event::Frame => {
            if s.mode == PlayMode::Running {
                lemma_collided_valid(s.moved());
            }
        },
        Event::Press(key, repeat) => {},
    }
}

/// The state in which a level begins is valid, its ball is between the
/// walls and at the level's speed, and its ramps are earned.
pub proof fn lemma_fresh(index: u32, score: u32)
    requires
        score + cells_for(index).len() <= u32::MAX,
    ensures
        PlayView::fresh(index, score).valid(),
        PlayView::fresh(index, score).contained(),
        PlayView::fresh(index, score).ramps_earned(),
        at_speed(PlayView::fresh(index, score).velocity, PlayView::fresh(index, score).speed),
{
    lemma_layout_wf(index % NUM_LEVELS);
    lemma_speed_bounds(index);
    let speed = PlayView::fresh(index, score).speed;
    assert(at_speed((0, -speed), speed)) by (nonlinear_arith)
        requires
            speed >= 0,
    ;
}

/// Whatever the events, a valid state stays valid. In particular the paddle
/// stays within its limits however it is moved, the ball stays within the
/// level's speed, and no two blocks share a cell.
pub proof fn lemma_valid_always(s: PlayView, events: Seq<Event>)
    requires
        s.valid(),
    ensures
        s.after_all(events).valid(),
        LIMIT_LEFT <= s.after_all(events).paddle <= LIMIT_RIGHT,
    decreases events.len(),
{
    if events.len() > 0 {
        lemma_valid_always(s, events.drop_last());
        lemma_valid_after(s.after_all(events.drop_last()), events.last());
    }
}

/// Whatever the events, a ball at the level's speed stays at the level's
/// speed: the square of its speed is the square of the level's, short of it
/// by a millionth at most.
pub proof fn lemma_speed_always(s: PlayView, events: Seq<Event>)
    requires
        s.valid(),
        at_speed(s.velocity, s.speed),
    ensures
        at_speed(s.after_all(events).velocity, s.after_all(events).speed),
        close_to_speed(s.after_all(events).velocity, s.after_all(events).speed),
        s.after_all(events).speed == s.speed,
    decreases events.len(),
{
    lemma_speed_bounds(s.index);
    lemma_at_speed_is_close(s.velocity, s.speed);
    if events.len() > 0 {
        let before = s.after_all(events.drop_last());
        lemma_speed_always(s, events.drop_last());
        lemma_valid_always(s, events.drop_last());
        if events.last() == Event::Frame && before.mode == PlayMode::Running {
            lemma_collided_at_speed(before.moved());
        }
        lemma_at_speed_is_close(s.after_all(events).velocity, s.speed);
    }
}

/// Whatever the events, the ball is between the side walls or is back
/// between them one frame later: no contact leaves the ball beyond a side
/// wall for more than one frame.
pub proof fn lemma_contained_always(s: PlayView, events: Seq<Event>)
    requires
        s.valid(),
        s.contained(),
    ensures
        s.after_all(events).contained(),
    decreases events.len(),
{
    if events.len() > 0 {
        lemma_contained_always(s, events.drop_last());
        lemma_valid_always(s, events.drop_last());
    }
}

/// A ball that was within the side walls and is beyond one of them after
/// the frame has been turned round towards the field: the next frame
/// takes it back to where it was.
pub proof fn lemma_side_wall_turns_back(s: PlayView)
    requires
        s.valid(),
        BALL_RADIUS <= s.ball.0 <= WIDTH - BALL_RADIUS,
    ensures
        s.after_frame().ball.0 < BALL_RADIUS ==> s.after_frame().velocity.0 > 0,
        s.after_frame().ball.0 > WIDTH - BALL_RADIUS ==> s.after_frame().velocity.0 < 0,
        !(BALL_RADIUS <= s.after_frame().ball.0 <= WIDTH - BALL_RADIUS) ==> s.after_frame().moved().ball.0
            == s.ball.0,
{
    lemma_speed_bounds(s.index);
}

/// A ball that was below the top wall, and that meets no side wall in this
/// frame, is below the top wall after the frame or is back where it was one
/// frame later. (A ball that meets a side wall and the top wall in one frame
/// turns round at the side wall only, and is above the top line for longer.)
pub proof fn lemma_top_wall_returns(s: PlayView)
    requires
        s.valid(),
        s.mode == PlayMode::Running,
        s.ball.1 > BALL_RADIUS,
        between_walls(s.moved().ball.0),
    ensures
        s.after_frame().ball.1 > BALL_RADIUS || s.after_frame().moved().ball.1 == s.ball.1,
{
}

/// While a ramp grows from one to `r`, the paddle travels this many times
/// `r - 1` at least: each press moves it by eight times the ramp, and the
/// ramps of the presses add up to six times the growth.
pub const RAMP_TRAVEL: i64 = 48;

/// The paddle has travelled as far as the ramp's growth takes: it has
/// `room` behind it for [`RAMP_TRAVEL`] times the growth.
pub open spec fn earned(ramp: int, room: int) -> bool {
    RAMP_TRAVEL * (ramp - RAMP_UNIT) <= room
}

impl PlayView {
    /// The ramp of each key is earned by the way that the paddle has come,
    /// unless the paddle stands at that key's limit.
    pub open spec fn ramps_earned(self) -> bool {
        &&& self.paddle > LIMIT_LEFT ==> earned(self.ramp.0, LIMIT_RIGHT - self.paddle)
        &&& self.paddle < LIMIT_RIGHT ==> earned(self.ramp.1, self.paddle - LIMIT_LEFT)
    }
}

/// Every event leaves the ramps earned.
pub proof fn lemma_ramps_earned_after(s: PlayView, event: Event)
    requires
        s.valid(),
        s.ramps_earned(),
    ensures
        s.after(event).ramps_earned(),
{
}

/// Whatever the events, the ramps stay earned. A level begins with its
/// ramps earned, so that they are earned throughout.
pub proof fn lemma_ramps_earned_always(s: PlayView, events: Seq<Event>)
    requires
        s.valid(),
        s.ramps_earned(),
    ensures
        s.after_all(events).ramps_earned(),
    decreases events.len(),
{
    if events.len() > 0 {
        lemma_ramps_earned_always(s, events.drop_last());
        lemma_valid_always(s, events.drop_last());
        lemma_ramps_earned_after(s.after_all(events.drop_last()), events.last());
    }
}

/// The limit on the ramps, [`RAMP_MAX`], is not felt in the field: where a
/// key still has room to move the paddle and its ramp is earned, the ramp
/// grows by its fifth, and is below nineteen afterwards.
pub proof fn lemma_ramp_limit_not_felt(s: PlayView)
    requires
        s.valid(),
        s.ramps_earned(),
    ensures
        s.paddle > LIMIT_LEFT ==> PlayView::ramped(s.ramp.0, true) == s.ramp.0 * RAMP_UP / (
        RAMP_DOWN as int) && PlayView::ramped(s.ramp.0, true) < 19 * RAMP_UNIT,
        s.paddle < LIMIT_RIGHT ==> PlayView::ramped(s.ramp.1, true) == s.ramp.1 * RAMP_UP / (
        RAMP_DOWN as int) && PlayView::ramped(s.ramp.1, true) < 19 * RAMP_UNIT,
{
}

/// Whatever the events, every block that stands after them stood before
/// them, and no more blocks stand than before: a block that is gone does not
/// come back.
pub proof fn lemma_blocks_only_go(s: PlayView, events: Seq<Event>)
    ensures
        forall|b: Block| #[trigger] s.after_all(events).blocks.contains(b) ==> s.blocks.contains(b),
        s.after_all(events).blocks.len() <= s.blocks.len(),
    decreases events.len(),
{
    if events.len() > 0 {
        let before = s.after_all(events.drop_last());
        lemma_blocks_only_go(s, events.drop_last());
        lemma_filter_keeps(before.moved().blocks, missed_by(before.moved().ball));
        lemma_filter_split(before.moved().blocks, before.moved().ball);
    }
}

/// A frame adds to the score the number of blocks that it destroys, and as
/// many blocks fewer stand after it.
pub proof fn lemma_frame_counts_blocks(s: PlayView)
    ensures
        s.after_frame().score == s.score + s.frame_destroyed().len(),
        s.after_frame().blocks.len() == s.blocks.len() - s.frame_destroyed().len(),
{
    lemma_filter_split(s.moved().blocks, s.moved().ball);
}

/// No event takes from the score, and none but a frame changes it.
pub proof fn lemma_score_counts_blocks(s: PlayView, event: Event)
    ensures
        s.after(event).score - s.score == s.blocks.len() - s.after(event).blocks.len(),
        s.after(event).score >= s.score,
        event is Press ==> s.after(event).score == s.score,
{
    lemma_frame_counts_blocks(s);
}

/// Whatever the events, the score has not fallen: it has grown by the
/// number of blocks that have gone.
pub proof fn lemma_score_always(s: PlayView, events: Seq<Event>)
    ensures
        s.after_all(events).score - s.score == s.blocks.len() - s.after_all(events).blocks.len(),
        s.after_all(events).score >= s.score,
    decreases events.len(),
{
    if events.len() > 0 {
        lemma_score_always(s, events.drop_last());
        lemma_score_counts_blocks(s.after_all(events.drop_last()), events.last());
    }
}

/// Once a level is lost or won, no number of frames changes its state.
pub proof fn lemma_ended_stays(s: PlayView, frames: Seq<Event>)
    requires
        s.mode == PlayMode::Lost || s.mode == PlayMode::Won,
        forall|k: int| 0 <= k < frames.len() ==> frames[k] == Event::Frame,
    ensures
        s.after_all(frames) == s,
    decreases frames.len(),
{
    if frames.len() > 0 {
        lemma_ended_stays(s, frames.drop_last());
    }
}

} // verus!
