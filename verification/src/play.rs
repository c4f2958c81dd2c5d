//! One level in play: the ball, the paddle, the blocks and the score.

use vstd::prelude::*;
use crate::field::{
    held, in_limits, Rect, BALL_RADIUS, FLOOR_LINE, LIMIT_LEFT, LIMIT_RIGHT, PADDLE_LINE,
    PADDLE_MARGIN, PADDLE_WIDTH, POSITION_LIMIT, REST_LINE, WIDTH,
};
use crate::level::{
    all_wf, blocks_in, cells_for, distinct_cells, next_level, speed_for, Block, Level,
};
use crate::laws::{
    lemma_collided_at_speed, lemma_collided_close_to_speed, lemma_paddle_sends_up,
    lemma_side_wall_turns_back,
};
use crate::motion::{
    at_speed, ball_rect, bounce_side, close_to_speed, deflect, deflected, reflect, reflected,
    struck_side, touches, within_speed, Bounce,
};

verus! {

/// The phases of a level in play.
#[derive(Clone, Copy, Debug, PartialEq, Eq, Structural)]
pub enum PlayMode {
    /// The ball rests on the paddle and waits to be launched.
    Pending,
    /// The ball is in flight.
    Running,
    /// The ball fell past the paddle.
    Lost,
    /// Every block is gone.
    Won,
}

/// The sound that a frame asks for.
#[derive(Clone, Copy, Debug, PartialEq, Eq, Structural)]
pub enum Cue {
    /// No sound.
    Silent,
    /// The ball struck the paddle.
    PaddleHit,
    /// The ball struck one block or more.
    BlockHit,
}

/// What a frame did, beyond moving the ball.
pub struct Impact {
    /// The sound to play.
    pub cue: Cue,
    /// The blocks that were destroyed, in the order they stood in.
    pub destroyed: Vec<Block>,
}

/// What the ball is in contact with. The first that applies, in this order,
/// decides what a frame does.
#[derive(Clone, Copy, Debug, PartialEq, Eq, Structural)]
pub enum Contact {
    /// The ball reaches the left or the right wall.
    SideWall,
    /// The ball reaches the top wall.
    TopWall,
    /// The ball is below the floor line.
    Floor,
    /// The ball, falling, reaches the paddle.
    Paddle,
    /// None of these: the ball is among the blocks, or in the open.
    Field,
}

/// The two ways the paddle moves.
#[derive(Clone, Copy, Debug, PartialEq, Eq, Structural)]
pub enum Direction {
    Left,
    Right,
}

/// The keys that the game listens to.
#[derive(Clone, Copy, Debug, PartialEq, Eq, Structural)]
pub enum Key {
    Space,
    Left,
    Right,
    Escape,
    /// Any other key.
    Other,
}

/// How a level in play has ended.
#[derive(Clone, Copy, Debug, PartialEq, Eq, Structural)]
pub enum Outcome {
    /// The ball was lost, with this final score.
    Lost { score: u32 },
    /// The level was cleared: the level with the number `next` follows, and
    /// the score goes with it.
    Won { next: u32, score: u32 },
}

/// The paddle's speed, per key press, before any ramp.
pub const PADDLE_SPEED: i64 = 8_000_000;

/// A held key's ramp grows by a fifth with each repeat: it is multiplied by
/// [`RAMP_UP`] and divided by [`RAMP_DOWN`].
pub const RAMP_UP: i64 = 6;

/// See [`RAMP_UP`].
pub const RAMP_DOWN: i64 = 5;

/// The ramp of a key that is not held: one, in millionths.
pub const RAMP_UNIT: i64 = 1_000_000;

/// No ramp grows beyond this, a hundred thousand: the ramp of a key that is
/// held against the paddle's limit stops here, for the machine's sake. A
/// ramp that still moves the paddle is nowhere near it, since the field is
/// crossed long before.
pub const RAMP_MAX: i64 = 100_000_000_000;

/// The blocks that a ball at `ball` strikes.
pub open spec fn hit_by(ball: (int, int)) -> spec_fn(Block) -> bool {
    |b: Block| touches(b.rect, ball)
}

/// The blocks that a ball at `ball` leaves standing.
pub open spec fn missed_by(ball: (int, int)) -> spec_fn(Block) -> bool {
    |b: Block| !touches(b.rect, ball)
}

/// The bounce that the struck blocks give: the side from which the ball
/// struck the last of them, or none where no block was struck.
pub open spec fn bounce_off(struck: Seq<Block>, ball: (int, int), velocity: (int, int)) -> Option<
    Bounce,
> {
    if struck.len() == 0 {
        None
    } else {
        Some(struck_side(struck.last().rect, ball, velocity))
    }
}

/// A ramp is at least one and at most [`RAMP_MAX`].
pub open spec fn ramp_ok(ramp: int) -> bool {
    RAMP_UNIT <= ramp <= RAMP_MAX
}

/// What a ball at `ball`, falling or rising with the vertical velocity
/// `vy`, is in contact with when the paddle is at `paddle`.
pub open spec fn contact_of(ball: (int, int), vy: int, paddle: int) -> Contact {
    let (bx, by) = ball;
    if bx - BALL_RADIUS <= 0 || bx + BALL_RADIUS >= WIDTH {
        Contact::SideWall
    } else if by - BALL_RADIUS <= 0 {
        Contact::TopWall
    } else if by + BALL_RADIUS > FLOOR_LINE {
        Contact::Floor
    } else if vy > 0 && by + BALL_RADIUS > PADDLE_LINE && bx + BALL_RADIUS >= paddle - PADDLE_WIDTH
        / 2 - PADDLE_MARGIN && bx - BALL_RADIUS <= paddle + PADDLE_WIDTH / 2 + PADDLE_MARGIN {
        Contact::Paddle
    } else {
        Contact::Field
    }
}

/// The state of a level in play, as mathematics sees it.
pub struct PlayView {
    /// The phase.
    pub mode: PlayMode,
    /// Number of the level.
    pub index: u32,
    /// Speed of the level's ball.
    pub speed: int,
    /// The blocks still standing.
    pub blocks: Seq<Block>,
    /// Centre of the paddle.
    pub paddle: int,
    /// Centre of the ball.
    pub ball: (int, int),
    /// Ramps of the left and the right key, in millionths.
    pub ramp: (int, int),
    /// Velocity of the ball, per frame.
    pub velocity: (int, int),
    /// Blocks destroyed so far.
    pub score: int,
}

impl PlayView {
    /// What every state of a level in play satisfies.
    pub open spec fn valid(self) -> bool {
        &&& distinct_cells(self.blocks)
        &&& all_wf(self.blocks)
        &&& self.speed == speed_for(self.index)
        &&& within_speed(self.velocity, self.speed)
        &&& LIMIT_LEFT <= self.paddle <= LIMIT_RIGHT
        &&& ramp_ok(self.ramp.0)
        &&& ramp_ok(self.ramp.1)
        &&& 0 <= self.score
        &&& self.score + self.blocks.len() <= u32::MAX
        &&& in_limits(self.ball)
        &&& self.mode == PlayMode::Pending ==> self.ball == (self.paddle, REST_LINE as int)
    }

    /// What the ball is in contact with.
    pub open spec fn contact(self) -> Contact {
        contact_of(self.ball, self.velocity.1, self.paddle)
    }

    /// The blocks that the ball strikes where it is.
    pub open spec fn struck(self) -> Seq<Block> {
        self.blocks.filter(hit_by(self.ball))
    }

    /// The blocks that the ball leaves standing.
    pub open spec fn spared(self) -> Seq<Block> {
        self.blocks.filter(missed_by(self.ball))
    }

    /// The blocks that go when the ball's contact is resolved: those that
    /// the ball strikes, unless a wall, the floor or the paddle comes first.
    pub open spec fn destroyed(self) -> Seq<Block> {
        if self.contact() == Contact::Field {
            self.struck()
        } else {
            Seq::empty()
        }
    }

    /// The state after the ball's contact is resolved.
    ///
    /// At a side wall the ball turns round horizontally, at the top wall
    /// vertically. Below the floor line the level is lost. Off the paddle the
    /// ball leaves as [`deflected`] says. Else every block that the ball
    /// strikes goes and counts one point, the last of them gives the ball its
    /// one bounce, and the level is won when no block is left.
    pub open spec fn collided(self) -> PlayView {
        match self.contact() {
            Contact::SideWall => PlayView { velocity: (-self.velocity.0, self.velocity.1), ..self },
            Contact::TopWall => PlayView { velocity: (self.velocity.0, -self.velocity.1), ..self },
            Contact::Floor => PlayView { mode: PlayMode::Lost, ..self },
            Contact::Paddle => PlayView {
                velocity: deflected(self.velocity, self.ball.0 - self.paddle, self.speed),
                ..self
            },
            Contact::Field => PlayView {
                mode: if self.spared().len() == 0 {
                    PlayMode::Won
                } else {
                    self.mode
                },
                blocks: self.spared(),
                velocity: reflected(
                    self.velocity,
                    bounce_off(self.struck(), self.ball, self.velocity),
                ),
                score: self.score + self.struck().len(),
                ..self
            },
        }
    }

    /// The state with the ball moved on by its velocity, and held within
    /// the machine's reach.
    pub open spec fn moved(self) -> PlayView {
        PlayView {
            ball: (held(self.ball.0 + self.velocity.0), held(self.ball.1 + self.velocity.1)),
            ..self
        }
    }

    /// The state one frame later: while the level is running the ball moves
    /// on and its contact is resolved; in every other phase nothing changes.
    pub open spec fn after_frame(self) -> PlayView {
        if self.mode == PlayMode::Running {
            self.moved().collided()
        } else {
            self
        }
    }

    /// The sound of the frame.
    pub open spec fn frame_cue(self) -> Cue {
        if self.mode == PlayMode::Running {
            self.moved().collision_cue()
        } else {
            Cue::Silent
        }
    }

    /// The blocks that the frame destroys.
    pub open spec fn frame_destroyed(self) -> Seq<Block> {
        if self.mode == PlayMode::Running {
            self.moved().destroyed()
        } else {
            Seq::empty()
        }
    }

    /// The state after the launch key: a pending ball starts to fly, and in
    /// every other phase nothing changes.
    pub open spec fn launched(self) -> PlayView {
        if self.mode == PlayMode::Pending {
            PlayView { mode: PlayMode::Running, ..self }
        } else {
            self
        }
    }

    /// The ramp of a key after one more press: a fifth more than before if
    /// the key is held, but no more than [`RAMP_MAX`]; one if it is not.
    pub open spec fn ramped(ramp: int, repeat: bool) -> int {
        if repeat {
            let grown = ramp * RAMP_UP / (RAMP_DOWN as int);
            if grown > RAMP_MAX {
                RAMP_MAX as int
            } else {
                grown
            }
        } else {
            RAMP_UNIT as int
        }
    }

    /// How far a key press with the ramp `ramp` moves the paddle that has
    /// `room` left before its limit: by its speed times the ramp, or by the
    /// room that is left if that is less.
    pub open spec fn stride(ramp: int, room: int) -> int {
        let reach = PADDLE_SPEED * ramp / (RAMP_UNIT as int);
        if reach > room {
            room
        } else {
            reach
        }
    }

    /// The state after a press of the left or the right key.
    ///
    /// A lost level ignores the key. Else the key's own ramp grows if the
    /// key is held, and falls back to one if not, and the other key's ramp
    /// falls back to one; the paddle moves by its speed times the ramp, but
    /// not beyond its limit, where it does not move at all; and a pending
    /// ball moves with the paddle.
    pub open spec fn paddle_moved(self, direction: Direction, repeat: bool) -> PlayView {
        if self.mode == PlayMode::Lost {
            self
        } else {
            match direction {
                Direction::Left => {
                    let ramp = Self::ramped(self.ramp.0, repeat);
                    let step = Self::stride(ramp, self.paddle - LIMIT_LEFT);
                    PlayView {
                        ramp: (ramp, RAMP_UNIT as int),
                        paddle: self.paddle - step,
                        ball: if self.mode == PlayMode::Pending {
                            (self.ball.0 - step, self.ball.1)
                        } else {
                            self.ball
                        },
                        ..self
                    }
                },
                Direction::Right => {
                    let ramp = Self::ramped(self.ramp.1, repeat);
                    let step = Self::stride(ramp, LIMIT_RIGHT - self.paddle);
                    PlayView {
                        ramp: (RAMP_UNIT as int, ramp),
                        paddle: self.paddle + step,
                        ball: if self.mode == PlayMode::Pending {
                            (self.ball.0 + step, self.ball.1)
                        } else {
                            self.ball
                        },
                        ..self
                    }
                },
            }
        }
    }

    /// The state after a key press: the space key launches, the left and the
    /// right key move the paddle, every other key does nothing.
    pub open spec fn after_key(self, key: Key, repeat: bool) -> PlayView {
        match key {
            Key::Space => self.launched(),
            Key::Left => self.paddle_moved(Direction::Left, repeat),
            Key::Right => self.paddle_moved(Direction::Right, repeat),
            _ => self,
        }
    }

    /// The state in which the level `index` begins, with the score `score`
    /// brought along: every block of the layout stands, the paddle is in the
    /// middle with the ball at rest on it, and the ball will leave straight
    /// up at the level's speed.
    pub open spec fn fresh(index: u32, score: u32) -> PlayView {
        PlayView {
            mode: PlayMode::Pending,
            index,
            speed: speed_for(index),
            blocks: blocks_in(cells_for(index)),
            paddle: WIDTH / 2,
            ball: (WIDTH / 2, REST_LINE as int),
            ramp: (RAMP_UNIT as int, RAMP_UNIT as int),
            velocity: (0, -speed_for(index)),
            score: score as int,
        }
    }

    /// How the level has ended, if it has.
    pub open spec fn outcome(self) -> Option<Outcome> {
        match self.mode {
            PlayMode::Lost => Some(Outcome::Lost { score: self.score as u32 }),
            PlayMode::Won => Some(
                Outcome::Won { next: (self.index + 1) as u32, score: self.score as u32 },
            ),
            _ => None,
        }
    }

    /// The sound of the ball's contact: one for the paddle, one for a frame
    /// in which blocks were struck.
    pub open spec fn collision_cue(self) -> Cue {
        match self.contact() {
            Contact::Paddle => Cue::PaddleHit,
            Contact::Field => if self.struck().len() > 0 {
                Cue::BlockHit
            } else {
                Cue::Silent
            },
            _ => Cue::Silent,
        }
    }
}

/// A level in play.
pub struct PlayState {
    /// The phase.
    pub mode: PlayMode,
    /// The level, with the blocks still standing.
    pub level: Level,
    /// Centre of the paddle.
    pub paddle: i64,
    /// Centre of the ball.
    pub ball: (i64, i64),
    /// Ramps of the left and the right key, in millionths.
    pub ramp: (i64, i64),
    /// Velocity of the ball, per frame.
    pub velocity: (i64, i64),
    /// Blocks destroyed so far.
    pub score: u32,
}

impl View for PlayState {
    type V = PlayView;

    open spec fn view(&self) -> PlayView {
        PlayView {
            mode: self.mode,
            index: self.level.index,
            speed: self.level.ball_speed as int,
            blocks: self.level.blocks@,
            paddle: self.paddle as int,
            ball: (self.ball.0 as int, self.ball.1 as int),
            ramp: (self.ramp.0 as int, self.ramp.1 as int),
            velocity: (self.velocity.0 as int, self.velocity.1 as int),
            score: self.score as int,
        }
    }
}

/// The part of a sequence that a filter keeps grows with the sequence by
/// the elements that pass.
pub proof fn lemma_filter_next<A>(s: Seq<A>, pred: spec_fn(A) -> bool, k: int)
    requires
        0 <= k < s.len(),
    ensures
        s.take(k + 1).filter(pred) == if pred(s[k]) {
            s.take(k).filter(pred).push(s[k])
        } else {
            s.take(k).filter(pred)
        },
{
    reveal(Seq::filter);
    assert(s.take(k + 1).drop_last() =~= s.take(k));
}

/// What a filter keeps and what it drops make up the sequence.
pub proof fn lemma_filter_split(blocks: Seq<Block>, ball: (int, int))
    ensures
        blocks.filter(hit_by(ball)).len() + blocks.filter(missed_by(ball)).len() == blocks.len(),
    decreases blocks.len(),
{
    reveal(Seq::filter);
    if blocks.len() > 0 {
        lemma_filter_split(blocks.drop_last(), ball);
    }
}

/// Blocks that a filter keeps were there before, in cells of their own and
/// with their cells' rectangles if that held before.
pub proof fn lemma_filter_keeps(blocks: Seq<Block>, pred: spec_fn(Block) -> bool)
    ensures
        forall|b: Block| #[trigger] blocks.filter(pred).contains(b) ==> blocks.contains(b),
        distinct_cells(blocks) ==> distinct_cells(blocks.filter(pred)),
        all_wf(blocks) ==> all_wf(blocks.filter(pred)),
    decreases blocks.len(),
{
    reveal(Seq::filter);
    let kept = blocks.filter(pred);
    if blocks.len() > 0 {
        let rest = blocks.drop_last();
        let inner = rest.filter(pred);
        lemma_filter_keeps(rest, pred);
        assert forall|b: Block| #[trigger] kept.contains(b) implies blocks.contains(b) by {
            let k = choose|k: int| 0 <= k < kept.len() && kept[k] == b;
            if k < inner.len() {
                assert(inner[k] == b);
                assert(inner.contains(b));
                let m = choose|m: int| 0 <= m < rest.len() && rest[m] == b;
                assert(blocks[m] == b);
            } else {
                assert(blocks[blocks.len() - 1] == b);
            }
        }
        if distinct_cells(blocks) {
            assert forall|a: int, b: int| 0 <= a < b < rest.len() implies !rest[a].same_cell(
                &rest[b],
            ) by {
                assert(blocks[a] == rest[a] && blocks[b] == rest[b]);
            }
            assert forall|a: int, b: int| 0 <= a < b < kept.len() implies !kept[a].same_cell(
                &kept[b],
            ) by {
                if b == inner.len() {
                    assert(inner[a] == kept[a]);
                    assert(inner.contains(kept[a]));
                    let m = choose|m: int| 0 <= m < rest.len() && rest[m] == kept[a];
                    assert(blocks[m] == kept[a]);
                    assert(blocks[blocks.len() - 1] == kept[b]);
                } else {
                    assert(inner[a] == kept[a] && inner[b] == kept[b]);
                }
            }
        }
        if all_wf(blocks) {
            assert forall|k: int| 0 <= k < rest.len() implies (#[trigger] rest[k]).wf() by {
                assert(blocks[k] == rest[k]);
            }
            assert forall|k: int| 0 <= k < kept.len() implies (#[trigger] kept[k]).wf() by {
                if k == inner.len() {
                    assert(blocks[blocks.len() - 1] == kept[k]);
                } else {
                    assert(inner[k] == kept[k]);
                }
            }
        }
    }
}

impl PlayState {
    /// The state is valid.
    pub open spec fn wf(&self) -> bool {
        self@.valid()
    }

    /// Whether the state is well formed.
    pub fn is_wf(&self) -> (ok: bool)
        ensures
            ok == self.wf(),
    {
        if !self.level.is_wf() {
            return false;
        }
        let speed = self.level.ball_speed;
        let (vx, vy) = self.velocity;
        if !(-speed <= vx && vx <= speed && -speed <= vy && vy <= speed) {
            return false;
        }
        if !(LIMIT_LEFT <= self.paddle && self.paddle <= LIMIT_RIGHT) {
            return false;
        }
        if !(RAMP_UNIT <= self.ramp.0 && self.ramp.0 <= RAMP_MAX && RAMP_UNIT <= self.ramp.1
            && self.ramp.1 <= RAMP_MAX) {
            return false;
        }
        let blocks = self.level.blocks.len();
        if !(blocks <= 0xffff_ffff && blocks as u64 + self.score as u64 <= 0xffff_ffff) {
            return false;
        }
        if self.mode == PlayMode::Pending && !(self.ball.0 == self.paddle && self.ball.1
            == REST_LINE) {
            return false;
        }
        let (bx, by) = self.ball;
        -POSITION_LIMIT <= bx && bx <= POSITION_LIMIT && -POSITION_LIMIT <= by && by
            <= POSITION_LIMIT
    }

    /// Begins the level `index` with the score `score`.
    pub fn new(index: u32, score: u32) -> (play: PlayState)
        requires
            score + cells_for(index).len() <= u32::MAX,
        ensures
            play@ == PlayView::fresh(index, score),
            play.wf(),
    {
        let level = next_level(index);
        let speed = level.ball_speed;
        proof {
            crate::level::lemma_speed_bounds(index);
        }
        PlayState {
            mode: PlayMode::Pending,
            level,
            paddle: WIDTH / 2,
            ball: (WIDTH / 2, REST_LINE),
            ramp: (RAMP_UNIT, RAMP_UNIT),
            velocity: (0, -speed),
            score,
        }
    }

    /// Launches the ball, if it waits for that.
    pub fn launch(&mut self)
        ensures
            final(self)@ == old(self)@.launched(),
            old(self).wf() ==> final(self).wf(),
    {
        if self.mode == PlayMode::Pending {
            self.mode = PlayMode::Running;
        }
    }

    // The ramp of a key after one more press.
    fn ramp_up(ramp: i64, repeat: bool) -> (up: i64)
        requires
            ramp_ok(ramp as int),
        ensures
            up == PlayView::ramped(ramp as int, repeat),
            ramp_ok(up as int),
    {
        if repeat {
            let grown: i64 = ramp * RAMP_UP / RAMP_DOWN;
            if grown > RAMP_MAX {
                RAMP_MAX
            } else {
                grown
            }
        } else {
            RAMP_UNIT
        }
    }

    /// Moves the paddle for one press of the left or the right key; `repeat`
    /// says that the key is held.
    pub fn move_paddle(&mut self, direction: Direction, repeat: bool)
        requires
            old(self).wf(),
        ensures
            final(self)@ == old(self)@.paddle_moved(direction, repeat),
            final(self).wf(),
    {
        if self.mode == PlayMode::Lost {
            return ;
        }
        match direction {
            Direction::Left => {
                self.ramp.1 = RAMP_UNIT;
                // a held key moves the paddle faster
                self.ramp.0 = PlayState::ramp_up(self.ramp.0, repeat);
                let mut delta: i64 = PADDLE_SPEED * self.ramp.0 / RAMP_UNIT;
                self.paddle -= delta;
                // stay in bounds
                if self.paddle < LIMIT_LEFT {
                    delta -= LIMIT_LEFT - self.paddle;
                    self.paddle = LIMIT_LEFT;
                }
                if self.mode == PlayMode::Pending {
                    self.ball.0 -= delta;
                }
            },
            Direction::Right => {
                self.ramp.0 = RAMP_UNIT;
                // a held key moves the paddle faster
                self.ramp.1 = PlayState::ramp_up(self.ramp.1, repeat);
                let mut delta: i64 = PADDLE_SPEED * self.ramp.1 / RAMP_UNIT;
                self.paddle += delta;
                // stay in bounds
                if self.paddle > LIMIT_RIGHT {
                    delta -= self.paddle - LIMIT_RIGHT;
                    self.paddle = LIMIT_RIGHT;
                }
                if self.mode == PlayMode::Pending {
                    self.ball.0 += delta;
                }
            },
        }
    }

    /// Handles a key press: space launches the ball, left and right move the
    /// paddle.
    pub fn key_down_event(&mut self, key: Key, repeat: bool)
        requires
            old(self).wf(),
        ensures
            final(self)@ == old(self)@.after_key(key, repeat),
            final(self).wf(),
    {
        match key {
            Key::Space => self.launch(),
            Key::Left => self.move_paddle(Direction::Left, repeat),
            Key::Right => self.move_paddle(Direction::Right, repeat),
            _ => {},
        }
    }

    // Where the ball is after it has moved on by its velocity.
    fn next_ball(&self) -> (ball: (i64, i64))
        requires
            self.wf(),
        ensures
            (ball.0 as int, ball.1 as int) == self@.moved().ball,
    {
        proof {
            crate::level::lemma_speed_bounds(self.level.index);
        }
        let x: i64 = self.ball.0 + self.velocity.0;
        let y: i64 = self.ball.1 + self.velocity.1;
        (PlayState::hold(x), PlayState::hold(y))
    }

    // A coordinate held within the machine's reach.
    fn hold(x: i64) -> (h: i64)
        ensures
            h == held(x as int),
    {
        if x < -POSITION_LIMIT {
            -POSITION_LIMIT
        } else if x > POSITION_LIMIT {
            POSITION_LIMIT
        } else {
            x
        }
    }

    /// Plays one frame: while the level is running, the ball moves on by its
    /// velocity and its contact is resolved. Says what sound the frame makes
    /// and which blocks it destroyed.
    ///
    /// In every other phase nothing changes. The blocks that are left stood
    /// before, the score grows by the number of those that went, and the
    /// ball keeps to the level's speed. A ball that was within the side walls
    /// and is carried beyond one comes back with the next frame.
    pub fn advance_frame(&mut self) -> (hit: Impact)
        requires
            old(self).wf(),
        ensures
            final(self)@ == old(self)@.after_frame(),
            hit.cue == old(self)@.frame_cue(),
            hit.destroyed@ == old(self)@.frame_destroyed(),
            final(self).wf(),
            old(self).mode != PlayMode::Running ==> final(self)@ == old(self)@,
            forall|b: Block| #[trigger]
                final(self).level.blocks@.contains(b) ==> old(self).level.blocks@.contains(b),
            final(self).level.blocks@.len() + hit.destroyed@.len() == old(self).level.blocks@.len(),
            final(self).score == old(self).score + hit.destroyed@.len(),
            at_speed(old(self)@.velocity, old(self)@.speed) ==> at_speed(
                final(self)@.velocity,
                final(self)@.speed,
            ),
            close_to_speed(old(self)@.velocity, old(self)@.speed) ==> close_to_speed(
                final(self)@.velocity,
                final(self)@.speed,
            ),
            BALL_RADIUS <= old(self).ball.0 <= WIDTH - BALL_RADIUS ==> {
                &&& final(self).ball.0 < BALL_RADIUS ==> final(self).velocity.0 > 0
                &&& final(self).ball.0 > WIDTH - BALL_RADIUS ==> final(self).velocity.0 < 0
            },
    {
        proof {
            if BALL_RADIUS <= self.ball.0 <= WIDTH - BALL_RADIUS {
                lemma_side_wall_turns_back(self@);
            }
        }
        if self.mode == PlayMode::Running {
            self.ball = self.next_ball();
            self.collision()
        } else {
            Impact { cue: Cue::Silent, destroyed: Vec::new() }
        }
    }

    /// Whether the next frame wins the level: whether the level is running
    /// and the ball, moved on, strikes every block that is left.
    pub fn next_frame_wins(&self) -> (wins: bool)
        requires
            self.wf(),
        ensures
            wins == (self.mode == PlayMode::Running && self@.after_frame().mode == PlayMode::Won),
    {
        if self.mode != PlayMode::Running {
            return false;
        }
        let ball = self.next_ball();
        if PlayState::contact_at(ball, self.velocity.1, self.paddle) != Contact::Field {
            return false;
        }
        let ghost at = self@.moved();
        let area = ball_rect(ball);
        let n = self.level.blocks.len();
        let mut spared: usize = 0;
        let mut k: usize = 0;
        assert(at.blocks.take(0).filter(missed_by(at.ball)).len() == 0) by {
            reveal(Seq::filter);
        }
        while k < n
            invariant
                k <= n == at.blocks.len(),
                self.level.blocks@ == at.blocks,
                forall|rect: Rect| rect.spec_overlaps(&area) == touches(rect, at.ball),
                spared == at.blocks.take(k as int).filter(missed_by(at.ball)).len(),
                spared <= k,
            decreases n - k,
        {
            proof {
                lemma_filter_next(at.blocks, missed_by(at.ball), k as int);
            }
            if !self.level.blocks[k].rect.overlaps(&area) {
                spared += 1;
            }
            k += 1;
        }
        assert(at.blocks.take(n as int) =~= at.blocks);
        spared == 0
    }

    /// What a ball at `ball` with the vertical velocity `vy` is in contact
    /// with when the paddle is at `paddle`.
    pub fn contact_at(ball: (i64, i64), vy: i64, paddle: i64) -> (contact: Contact)
        requires
            in_limits((ball.0 as int, ball.1 as int)),
            LIMIT_LEFT <= paddle <= LIMIT_RIGHT,
        ensures
            contact == contact_of((ball.0 as int, ball.1 as int), vy as int, paddle as int),
    {
        let (bx, by) = ball;
        if bx - BALL_RADIUS <= 0 || bx + BALL_RADIUS >= WIDTH {
            Contact::SideWall
        } else if by - BALL_RADIUS <= 0 {
            Contact::TopWall
        } else if by + BALL_RADIUS > FLOOR_LINE {
            Contact::Floor
        } else if vy > 0 && by + BALL_RADIUS > PADDLE_LINE && bx + BALL_RADIUS >= paddle
            - PADDLE_WIDTH / 2 - PADDLE_MARGIN && bx - BALL_RADIUS <= paddle + PADDLE_WIDTH / 2
            + PADDLE_MARGIN {
            Contact::Paddle
        } else {
            Contact::Field
        }
    }

    /// How the level has ended, if it has: lost with the final score, or won
    /// with the number of the level that follows and the score to bring
    /// along.
    pub fn outcome(&self) -> (end: Option<Outcome>)
        requires
            self.mode == PlayMode::Won ==> self.level.index < u32::MAX,
        ensures
            end == self@.outcome(),
    {
        match self.mode {
            PlayMode::Lost => Some(Outcome::Lost { score: self.score }),
            PlayMode::Won => Some(Outcome::Won { next: self.level.index + 1, score: self.score }),
            _ => None,
        }
    }

    /// Resolves the ball's contact with the walls, the paddle and the blocks,
    /// where the ball is now. Says what sound that makes and which blocks it
    /// destroyed.
    ///
    /// The blocks that are left stood before, the score grows by the number
    /// of those that went, the ball keeps to the level's speed, and the
    /// paddle sends it upwards.
    pub fn collision(&mut self) -> (hit: Impact)
        requires
            old(self).wf(),
        ensures
            final(self)@ == old(self)@.collided(),
            hit.cue == old(self)@.collision_cue(),
            hit.destroyed@ == old(self)@.destroyed(),
            final(self).wf(),
            forall|b: Block| #[trigger]
                final(self).level.blocks@.contains(b) ==> old(self).level.blocks@.contains(b),
            final(self).level.blocks@.len() + hit.destroyed@.len() == old(self).level.blocks@.len(),
            final(self).score == old(self).score + hit.destroyed@.len(),
            old(self)@.contact() == Contact::Paddle ==> final(self).velocity.1 < 0,
            at_speed(old(self)@.velocity, old(self)@.speed) ==> at_speed(
                final(self)@.velocity,
                final(self)@.speed,
            ),
            close_to_speed(old(self)@.velocity, old(self)@.speed) ==> close_to_speed(
                final(self)@.velocity,
                final(self)@.speed,
            ),
    {
        proof {
            lemma_filter_keeps(self@.blocks, missed_by(self@.ball));
            lemma_filter_split(self@.blocks, self@.ball);
            if self@.contact() == Contact::Paddle {
                lemma_paddle_sends_up(self@);
            }
            if at_speed(self@.velocity, self@.speed) {
                lemma_collided_at_speed(self@);
            }
            if close_to_speed(self@.velocity, self@.speed) {
                lemma_collided_close_to_speed(self@);
            }
        }
        let (bx, by) = self.ball;
        let ball_speed = self.level.ball_speed;
        proof {
            crate::level::lemma_speed_bounds(self.level.index);
        }
        let contact = PlayState::contact_at(self.ball, self.velocity.1, self.paddle);
        if contact == Contact::SideWall {
            // vertical wall collision
            self.velocity.0 = -self.velocity.0;
            Impact { cue: Cue::Silent, destroyed: Vec::new() }
        } else if contact == Contact::TopWall {
            // top wall collision
            self.velocity.1 = -self.velocity.1;
            Impact { cue: Cue::Silent, destroyed: Vec::new() }
        } else if contact == Contact::Floor {
            // ball falls below paddle, lost!
            self.mode = PlayMode::Lost;
            Impact { cue: Cue::Silent, destroyed: Vec::new() }
        } else if contact == Contact::Paddle {
            // paddle collision: the bounce depends on where the ball struck
            self.velocity = deflect(self.velocity, bx - self.paddle, ball_speed);
            Impact { cue: Cue::PaddleHit, destroyed: Vec::new() }
        } else {
            let velocity = self.velocity;
            let area = ball_rect(self.ball);
            let ghost before = self@;
            // approximate ball by rectangle, and calculate hit blocks
            let mut spared: Vec<Block> = Vec::new();
            let mut destroyed: Vec<Block> = Vec::new();
            let mut bounce: Option<Bounce> = None;
            let mut sc: u32 = 0;
            let mut k: usize = 0;
            let n = self.level.blocks.len();
            assert(before.blocks.take(0).filter(hit_by(before.ball)).len() == 0
                && before.blocks.take(0).filter(missed_by(before.ball)).len() == 0) by {
                reveal(Seq::filter);
            }
            while k < n
                invariant
                    k <= n == before.blocks.len() <= u32::MAX,
                    self.level.blocks@ == before.blocks,
                    before.ball == (self.ball.0 as int, self.ball.1 as int),
                    before.velocity == (velocity.0 as int, velocity.1 as int),
                    forall|rect: Rect| rect.spec_overlaps(&area) == touches(rect, before.ball),
                    spared@ == before.blocks.take(k as int).filter(missed_by(before.ball)),
                    destroyed@ == before.blocks.take(k as int).filter(hit_by(before.ball)),
                    sc == destroyed@.len(),
                    bounce == bounce_off(
                        before.blocks.take(k as int).filter(hit_by(before.ball)),
                        before.ball,
                        before.velocity,
                    ),
                    sc + spared@.len() == k,
                decreases n - k,
            {
                let b = self.level.blocks[k];
                proof {
                    lemma_filter_next(before.blocks, hit_by(before.ball), k as int);
                    lemma_filter_next(before.blocks, missed_by(before.ball), k as int);
                }
                if b.rect.overlaps(&area) {
                    bounce = Some(bounce_side(&b.rect, self.ball, velocity));
                    destroyed.push(b);
                    sc += 1;
                } else {
                    spared.push(b);
                }
                k += 1;
            }
            proof {
                assert(before.blocks.take(n as int) =~= before.blocks);
                lemma_filter_keeps(before.blocks, missed_by(before.ball));
                lemma_filter_split(before.blocks, before.ball);
            }
            self.velocity = reflect(velocity, bounce);
            self.score += sc;
            let won = spared.len() == 0;
            self.level.blocks = spared;
            if won {
                self.mode = PlayMode::Won;
            }
            let cue = if sc > 0 {
                Cue::BlockHit
            } else {
                Cue::Silent
            };
            Impact { cue, destroyed }
        }
    }
}

} // verus!
