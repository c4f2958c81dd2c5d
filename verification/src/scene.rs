//! What a level in play looks like: the shapes to draw, from back to front.

use vstd::prelude::*;
use crate::field::{
    Rect, BALL_RADIUS, LIMIT_LEFT, LIMIT_RIGHT, PADDLE_HEIGHT, PADDLE_INNERWIDTH, PADDLE_LINE,
    PADDLE_MARGIN, PADDLE_WIDTH, UNIT,
};
use crate::level::{Block, Tint};
use crate::play::{PlayMode, PlayState, PlayView};

verus! {

/// A shape to draw.
#[derive(Clone, Copy, Debug, PartialEq, Eq, Structural)]
pub enum Shape {
    /// A filled rectangle.
    Fill { rect: Rect, tint: Tint },
    /// The outline of a rectangle.
    Stroke { rect: Rect, tint: Tint },
    /// A filled circle.
    Disc { x: i64, y: i64, radius: i64, tint: Tint },
    /// The outline of a circle.
    Ring { x: i64, y: i64, radius: i64, tint: Tint },
}

/// The colour behind everything.
pub const BACKGROUND: Tint = Tint::LightGray;

/// Two shapes for every block, in the blocks' order: the block filled in
/// its fill colour, then outlined in its stroke colour.
pub open spec fn block_shapes(blocks: Seq<Block>) -> Seq<Shape> {
    Seq::new(
        2 * blocks.len(),
        |k: int|
            if k % 2 == 0 {
                Shape::Fill { rect: blocks[k / 2].rect, tint: blocks[k / 2].fill }
            } else {
                Shape::Stroke { rect: blocks[k / 2].rect, tint: blocks[k / 2].stroke }
            },
    )
}

/// The flat middle part of the paddle whose centre is at `paddle`.
pub open spec fn paddle_rect(paddle: int) -> Rect {
    Rect {
        x: (paddle - PADDLE_INNERWIDTH / 2) as i64,
        y: PADDLE_LINE,
        w: PADDLE_INNERWIDTH,
        h: PADDLE_HEIGHT,
    }
}

/// The six shapes of the paddle: at each end a dark disc and a dark bar
/// that squares it off towards the middle, then the light middle part and
/// its dark outline, which leaves the top line out.
pub open spec fn paddle_shapes(paddle: int) -> Seq<Shape> {
    let rect = paddle_rect(paddle);
    seq![
        Shape::Disc {
            x: (rect.x - PADDLE_MARGIN) as i64,
            y: (rect.y + PADDLE_HEIGHT / 2) as i64,
            radius: PADDLE_MARGIN,
            tint: Tint::DarkGray,
        },
        Shape::Fill {
            rect: Rect {
                x: (rect.x - PADDLE_MARGIN) as i64,
                y: rect.y,
                w: PADDLE_MARGIN,
                h: PADDLE_HEIGHT,
            },
            tint: Tint::DarkGray,
        },
        Shape::Disc {
            x: (rect.x + PADDLE_WIDTH - PADDLE_MARGIN) as i64,
            y: (rect.y + PADDLE_HEIGHT / 2) as i64,
            radius: PADDLE_MARGIN,
            tint: Tint::DarkGray,
        },
        Shape::Fill {
            rect: Rect {
                x: (rect.x + PADDLE_WIDTH - 2 * PADDLE_MARGIN) as i64,
                y: rect.y,
                w: PADDLE_MARGIN,
                h: PADDLE_HEIGHT,
            },
            tint: Tint::DarkGray,
        },
        Shape::Fill { rect, tint: Tint::LightGray },
        Shape::Stroke {
            rect: Rect { x: rect.x, y: (rect.y + UNIT) as i64, w: rect.w, h: (rect.h - UNIT) as i64 },
            tint: Tint::DarkGray,
        },
    ]
}

/// The two shapes of the ball: a red disc and its dark outline.
pub open spec fn ball_shapes(ball: (int, int)) -> Seq<Shape> {
    seq![
        Shape::Disc { x: ball.0 as i64, y: ball.1 as i64, radius: BALL_RADIUS, tint: Tint::Red },
        Shape::Ring { x: ball.0 as i64, y: ball.1 as i64, radius: BALL_RADIUS, tint: Tint::DarkGray },
    ]
}

impl PlayView {
    /// The shapes of the level in play, from back to front: the blocks, the
    /// paddle, and the ball unless it is lost.
    pub open spec fn scene(self) -> Seq<Shape> {
        let ball = if self.mode == PlayMode::Lost {
            Seq::empty()
        } else {
            ball_shapes(self.ball)
        };
        block_shapes(self.blocks) + paddle_shapes(self.paddle) + ball
    }
}

impl PlayState {
    // Adds the two shapes of a block.
    fn draw_block(shapes: &mut Vec<Shape>, block: &Block)
        ensures
            final(shapes)@ == old(shapes)@ + block_shapes(seq![*block]),
    {
        shapes.push(Shape::Fill { rect: block.rect, tint: block.fill });
        shapes.push(Shape::Stroke { rect: block.rect, tint: block.stroke });
    }

    /// The shapes to draw, from back to front.
    pub fn scene(&self) -> (shapes: Vec<Shape>)
        requires
            LIMIT_LEFT <= self.paddle <= LIMIT_RIGHT,
        ensures
            shapes@ == self@.scene(),
    {
        let mut shapes: Vec<Shape> = Vec::new();
        let n = self.level.blocks.len();
        let mut k: usize = 0;
        while k < n
            invariant
                k <= n == self.level.blocks@.len(),
                shapes@ == block_shapes(self.level.blocks@.take(k as int)),
            decreases n - k,
        {
            PlayState::draw_block(&mut shapes, &self.level.blocks[k]);
            k += 1;
        }
        // the paddle
        let rect = Rect {
            x: self.paddle - PADDLE_INNERWIDTH / 2,
            y: PADDLE_LINE,
            w: PADDLE_INNERWIDTH,
            h: PADDLE_HEIGHT,
        };
        shapes.push(
            Shape::Disc {
                x: rect.x - PADDLE_MARGIN,
                y: rect.y + PADDLE_HEIGHT / 2,
                radius: PADDLE_MARGIN,
                tint: Tint::DarkGray,
            },
        );
        shapes.push(
            Shape::Fill {
                rect: Rect { x: rect.x - PADDLE_MARGIN, y: rect.y, w: PADDLE_MARGIN, h: PADDLE_HEIGHT },
                tint: Tint::DarkGray,
            },
        );
        shapes.push(
            Shape::Disc {
                x: rect.x + PADDLE_WIDTH - PADDLE_MARGIN,
                y: rect.y + PADDLE_HEIGHT / 2,
                radius: PADDLE_MARGIN,
                tint: Tint::DarkGray,
            },
        );
        shapes.push(
            Shape::Fill {
                rect: Rect {
                    x: rect.x + PADDLE_WIDTH - 2 * PADDLE_MARGIN,
                    y: rect.y,
                    w: PADDLE_MARGIN,
                    h: PADDLE_HEIGHT,
                },
                tint: Tint::DarkGray,
            },
        );
        shapes.push(Shape::Fill { rect, tint: Tint::LightGray });
        shapes.push(
            Shape::Stroke {
                rect: Rect { x: rect.x, y: rect.y + UNIT, w: rect.w, h: rect.h - UNIT },
                tint: Tint::DarkGray,
            },
        );
        // the ball
        if self.mode != PlayMode::Lost {
            let (x, y) = self.ball;
            shapes.push(Shape::Disc { x, y, radius: BALL_RADIUS, tint: Tint::Red });
            shapes.push(Shape::Ring { x, y, radius: BALL_RADIUS, tint: Tint::DarkGray });
        }
        shapes
    }

    /// Whether the level asks for the ball to be launched: while the ball
    /// waits on the paddle.
    pub fn shows_help(&self) -> (shown: bool)
        ensures
            shown == (self.mode == PlayMode::Pending),
    {
        self.mode == PlayMode::Pending
    }
}

} // verus!
