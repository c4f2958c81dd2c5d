//! Blocks, levels, and the layouts that levels are built from.

use vstd::prelude::*;
use vstd::pervasive::unreached;
use vstd::std_specs::cmp::PartialEqSpecImpl;
use crate::field::{Rect, BLOCK_HEIGHT, BLOCK_WIDTH, PADDLE_LINE, WIDTH};

verus! {

/// The colours the game draws with.
#[derive(Clone, Copy, Debug, PartialEq, Eq, Structural)]
pub enum Tint {
    LightGray,
    Gray,
    DarkGray,
    Red,
    Black,
}

/// A single block of the field.
///
/// A block is identified by its cell `(i, j)` of the grid: two blocks are
/// equal when they occupy the same cell, whatever they look like.
#[derive(Clone, Copy, Debug)]
pub struct Block {
    /// Column of the grid.
    pub i: i32,
    /// Row of the grid.
    pub j: i32,
    /// The cell's rectangle on the field.
    pub rect: Rect,
    /// Fill colour.
    pub fill: Tint,
    /// Stroke colour.
    pub stroke: Tint,
}

impl PartialEq for Block {
    fn eq(&self, other: &Self) -> (same: bool) {
        self.i == other.i && self.j == other.j
    }
}

impl Eq for Block {}

impl PartialEqSpecImpl for Block {
    open spec fn obeys_eq_spec() -> bool {
        true
    }

    open spec fn eq_spec(&self, other: &Self) -> bool {
        self.i == other.i && self.j == other.j
    }
}

/// The rectangle of the cell `(i, j)`.
pub open spec fn cell_rect(i: i32, j: i32) -> Rect {
    Rect {
        x: (i * BLOCK_WIDTH) as i64,
        y: (j * BLOCK_HEIGHT) as i64,
        w: BLOCK_WIDTH,
        h: BLOCK_HEIGHT,
    }
}

/// The fill colour of the cell `(i, j)`: the grid is chequered, darker where
/// the column and the row differ in parity.
pub open spec fn cell_fill(i: i32, j: i32) -> Tint {
    if i % 2 == j % 2 {
        Tint::Gray
    } else {
        Tint::DarkGray
    }
}

impl Block {
    /// The block that a layout puts in the cell `(i, j)`.
    pub open spec fn at(i: i32, j: i32) -> Block {
        Block { i, j, rect: cell_rect(i, j), fill: cell_fill(i, j), stroke: Tint::Black }
    }

    /// A block's rectangle is that of its cell.
    pub open spec fn wf(&self) -> bool {
        self.rect == cell_rect(self.i, self.j)
    }

    /// Whether two blocks occupy the same cell.
    pub open spec fn same_cell(&self, other: &Block) -> bool {
        self.i == other.i && self.j == other.j
    }

    /// The block's cell, which is its identity: blocks are equal exactly when
    /// their keys are, so the key is what to hash or to order blocks by.
    pub fn key(&self) -> (cell: (i32, i32))
        ensures
            cell == (self.i, self.j),
    {
        (self.i, self.j)
    }

    /// Makes the block of the cell `(i, j)`.
    pub fn new(i: i32, j: i32) -> (block: Block)
        ensures
            block == Block::at(i, j),
    {
        let fill = if (i % 2 == 0) == (j % 2 == 0) {
            Tint::Gray
        } else {
            Tint::DarkGray
        };
        Block {
            i,
            j,
            rect: Rect {
                x: i as i64 * BLOCK_WIDTH,
                y: j as i64 * BLOCK_HEIGHT,
                w: BLOCK_WIDTH,
                h: BLOCK_HEIGHT,
            },
            fill,
            stroke: Tint::Black,
        }
    }
}

/// No two blocks of the sequence occupy the same cell.
pub open spec fn distinct_cells(blocks: Seq<Block>) -> bool {
    forall|a: int, b: int|
        #![trigger blocks[a], blocks[b]]
        0 <= a < b < blocks.len() ==> !blocks[a].same_cell(&blocks[b])
}

/// Every block of the sequence has the rectangle of its cell.
pub open spec fn all_wf(blocks: Seq<Block>) -> bool {
    forall|k: int| 0 <= k < blocks.len() ==> (#[trigger] blocks[k]).wf()
}

/// Number of layouts the levels rotate through.
pub const NUM_LEVELS: u32 = 3;

/// Speed of the ball, per frame, during the first two rounds of layouts.
pub const BALL_SPEED: i64 = 5_000_000;

/// The greatest speed a level can have.
pub const MAX_BALL_SPEED: i64 = 7_158_278_825_000_000;

/// The speed of the ball in the level `ix`: the base speed through the first
/// two rounds of layouts, and from then on the base speed times the number
/// of rounds completed.
pub open spec fn speed_for(ix: u32) -> int {
    let rounds = ix / NUM_LEVELS;
    if rounds > 1 {
        BALL_SPEED * rounds
    } else {
        BALL_SPEED as int
    }
}

/// One level: its number, its blocks, and the speed of its ball.
pub struct Level {
    /// Number of the level, counted from 0.
    pub index: u32,
    /// The blocks still standing, no two in one cell.
    pub blocks: Vec<Block>,
    /// Speed of the ball, in sub-units per frame.
    pub ball_speed: i64,
}

impl Level {
    /// The blocks stand in cells of their own, each with its cell's
    /// rectangle, and the speed is the one that belongs to the level's number.
    pub open spec fn wf(&self) -> bool {
        &&& distinct_cells(self.blocks@)
        &&& all_wf(self.blocks@)
        &&& self.ball_speed == speed_for(self.index)
    }
}

/// The cells of the first layout, a pyramid that stands on its tip: five
/// blocks in the top row, three below them, one below those.
pub open spec fn pyramid() -> Seq<(i32, i32)> {
    seq![
        (8i32, 0i32),
        (9i32, 0i32),
        (10i32, 0i32),
        (11i32, 0i32),
        (12i32, 0i32),
        (9i32, 1i32),
        (10i32, 1i32),
        (11i32, 1i32),
        (10i32, 2i32),
    ]
}

/// The cells of the second layout, the outline of a diamond.
pub open spec fn diamond() -> Seq<(i32, i32)> {
    seq![
        (10i32, 0i32),
        (9i32, 1i32),
        (11i32, 1i32),
        (8i32, 2i32),
        (12i32, 2i32),
        (9i32, 3i32),
        (11i32, 3i32),
        (10i32, 4i32),
    ]
}

/// The cells of the third layout, twenty columns of five blocks, column by
/// column.
pub open spec fn full_grid() -> Seq<(i32, i32)> {
    Seq::new(100, |k: int| ((k / 5) as i32, (k % 5) as i32))
}

/// The layout with the number `lvl`: there are [`NUM_LEVELS`] of them,
/// numbered from 0.
pub open spec fn layout(lvl: u32) -> Option<Seq<(i32, i32)>> {
    if lvl == 0 {
        Some(pyramid())
    } else if lvl == 1 {
        Some(diamond())
    } else if lvl == 2 {
        Some(full_grid())
    } else {
        None
    }
}

/// The cells of the level `ix`: the layouts come round in turn.
pub open spec fn cells_for(ix: u32) -> Seq<(i32, i32)> {
    layout(ix % NUM_LEVELS).unwrap()
}

/// The blocks that stand in the given cells, in the cells' order.
pub open spec fn blocks_in(cells: Seq<(i32, i32)>) -> Seq<Block> {
    Seq::new(cells.len(), |k: int| Block::at(cells[k].0, cells[k].1))
}

/// Whether there is a layout with the number `lvl`.
pub fn has_layout(lvl: u32) -> (known: bool)
    ensures
        known == layout(lvl).is_some(),
{
    lvl < NUM_LEVELS
}

// Where the row `j` of the pyramid starts in `pyramid()`.
spec fn pyramid_row(j: int) -> int {
    if j <= 0 {
        0
    } else if j == 1 {
        5
    } else if j == 2 {
        8
    } else {
        9
    }
}

// Adds the first layout to `blocks`.
fn level_1(blocks: &mut Vec<Block>)
    ensures
        final(blocks)@ == old(blocks)@ + blocks_in(pyramid()),
{
    let ghost start = blocks@;
    let ghost all = blocks_in(pyramid());
    let mut j: i32 = 0;
    while j < 3
        invariant
            0 <= j <= 3,
            all == blocks_in(pyramid()),
            blocks@ == start + all.take(pyramid_row(j as int)),
        decreases 3 - j,
    {
        let mut x: i32 = 0;
        while x < 5 - j * 2
            invariant
                0 <= j < 3,
                0 <= x <= 5 - j * 2,
                all == blocks_in(pyramid()),
                blocks@ == start + all.take(pyramid_row(j as int) + x),
            decreases 5 - j * 2 - x,
        {
            let i: i32 = 8 + j + x;
            blocks.push(Block::new(i, j));
            x += 1;
        }
        j += 1;
    }
}

// Adds the second layout to `blocks`.
fn level_2(blocks: &mut Vec<Block>)
    ensures
        final(blocks)@ == old(blocks)@ + blocks_in(diamond()),
{
    let ghost start = blocks@;
    let ghost all = blocks_in(diamond());
    let cells: [(i32, i32); 8] = [
        (10, 0),
        (9, 1),
        (11, 1),
        (8, 2),
        (12, 2),
        (9, 3),
        (11, 3),
        (10, 4),
    ];
    let mut k: usize = 0;
    while k < 8
        invariant
            0 <= k <= 8,
            cells@ == diamond(),
            all == blocks_in(diamond()),
            blocks@ == start + all.take(k as int),
        decreases 8 - k,
    {
        let (i, j) = cells[k];
        blocks.push(Block::new(i, j));
        k += 1;
    }
}

// Adds the third layout to `blocks`.
fn level_3(blocks: &mut Vec<Block>)
    ensures
        final(blocks)@ == old(blocks)@ + blocks_in(full_grid()),
{
    let ghost start = blocks@;
    let ghost all = blocks_in(full_grid());
    let mut i: i32 = 0;
    while i < 20
        invariant
            0 <= i <= 20,
            all == blocks_in(full_grid()),
            blocks@ == start + all.take(5 * i),
        decreases 20 - i,
    {
        let mut j: i32 = 0;
        while j < 5
            invariant
                0 <= i < 20,
                0 <= j <= 5,
                all == blocks_in(full_grid()),
                blocks@ == start + all.take(5 * i + j),
            decreases 5 - j,
        {
            blocks.push(Block::new(i, j));
            j += 1;
        }
        i += 1;
    }
}

impl Level {
    /// Whether the level is well formed.
    pub fn is_wf(&self) -> (ok: bool)
        ensures
            ok == self.wf(),
    {
        let rounds: u32 = self.index / NUM_LEVELS;
        let speed: i64 = if rounds > 1 {
            BALL_SPEED * (rounds as i64)
        } else {
            BALL_SPEED
        };
        if self.ball_speed != speed {
            return false;
        }
        let n = self.blocks.len();
        let mut b: usize = 0;
        while b < n
            invariant
                b <= n == self.blocks@.len(),
                distinct_cells(self.blocks@.take(b as int)),
                all_wf(self.blocks@.take(b as int)),
            decreases n - b,
        {
            let block = self.blocks[b];
            let cell = Block::new(block.i, block.j);
            if block.rect != cell.rect {
                return false;
            }
            let mut a: usize = 0;
            while a < b
                invariant
                    a <= b < n == self.blocks@.len(),
                    block == self.blocks@[b as int],
                    forall|k: int| 0 <= k < a ==> !(#[trigger] self.blocks@[k]).same_cell(&block),
                decreases b - a,
            {
                if self.blocks[a] == block {
                    return false;
                }
                a += 1;
            }
            b += 1;
        }
        assert(self.blocks@.take(n as int) =~= self.blocks@);
        true
    }
}

/// A level's speed lies between the base speed and [`MAX_BALL_SPEED`].
pub proof fn lemma_speed_bounds(ix: u32)
    ensures
        BALL_SPEED <= speed_for(ix) <= MAX_BALL_SPEED,
{
}

/// The blocks of every layout stand in cells of their own, each with its
/// cell's rectangle.
pub proof fn lemma_layout_wf(lvl: u32)
    requires
        layout(lvl).is_some(),
    ensures
        distinct_cells(blocks_in(layout(lvl).unwrap())),
        all_wf(blocks_in(layout(lvl).unwrap())),
{
}

/// Every level has blocks, between 8 and 100 of them, and each of them is
/// the block of a cell of the field's twenty columns and five rows: it lies
/// within the field's width, above the paddle's line, and is coloured as
/// the chequered grid has it.
pub proof fn lemma_level_on_field(ix: u32)
    ensures
        8 <= blocks_in(cells_for(ix)).len() <= 100,
        forall|k: int|
            0 <= k < blocks_in(cells_for(ix)).len() ==> {
                let b = #[trigger] blocks_in(cells_for(ix))[k];
                &&& 0 <= b.i < 20
                &&& 0 <= b.j < 5
                &&& b == Block::at(b.i, b.j)
                &&& 0 <= b.rect.x
                &&& b.rect.right() <= WIDTH
                &&& 0 <= b.rect.y
                &&& b.rect.bottom() <= PADDLE_LINE
            },
{
}

/// Levels whose numbers leave the same remainder have the same blocks.
pub proof fn lemma_layouts_come_round(a: u32, b: u32)
    requires
        a % NUM_LEVELS == b % NUM_LEVELS,
    ensures
        blocks_in(cells_for(a)) == blocks_in(cells_for(b)),
{
}

/// The speed never falls from one level to a later one.
pub proof fn lemma_speed_grows(a: u32, b: u32)
    requires
        a <= b,
    ensures
        speed_for(a) <= speed_for(b),
{
}

/// The blocks of the layout with the number `lvl`, if there is one.
pub fn layout_blocks(lvl: u32) -> (blocks: Option<Vec<Block>>)
    ensures
        blocks.is_some() == layout(lvl).is_some(),
        blocks matches Some(b) ==> b@ == blocks_in(layout(lvl).unwrap()),
{
    let mut blocks: Vec<Block> = Vec::new();
    match lvl {
        0 => level_1(&mut blocks),
        1 => level_2(&mut blocks),
        2 => level_3(&mut blocks),
        _ => {
            return None;
        },
    }
    Some(blocks)
}

/// The number of blocks with which the level `ix` begins.
pub fn block_count(ix: u32) -> (count: u32)
    ensures
        count == cells_for(ix).len(),
{
    match ix % NUM_LEVELS {
        0 => 9,
        1 => 8,
        _ => 100,
    }
}

/// The level with the number `ix`: the layout `ix % NUM_LEVELS`, at the
/// speed that belongs to `ix`.
pub fn next_level(ix: u32) -> (level: Level)
    ensures
        level.index == ix,
        level.blocks@ == blocks_in(cells_for(ix)),
        level.ball_speed == speed_for(ix),
        level.wf(),
        8 <= level.blocks@.len() <= 100,
{
    let mut speed: i64 = BALL_SPEED;
    let num_levels: u32 = NUM_LEVELS;
    // the layout
    let lvl: u32 = ix % num_levels;
    // the ball gets faster once the layouts have come round twice
    let multi: u32 = ix / num_levels;
    if multi > 1 {
        speed = speed * (multi as i64);
    }
    let blocks = match layout_blocks(lvl) {
        Some(blocks) => blocks,
        None => unreached(),
    };
    proof {
        lemma_layout_wf(lvl);
        lemma_level_on_field(ix);
    }
    Level { index: ix, blocks, ball_speed: speed }
}

} // verus!
