//! The frame-loop orchestrator's state and rules: the grid layout of the
//! block board, the per-frame step of paddle, balls, collisions and
//! status, and the scene handed to the renderer.

use crate::ball::ball_x_after;
use crate::ball::ball_y_after;
use crate::ball::vel_x_after;
use crate::ball::vel_y_after;
use crate::ball::Ball;
use crate::block::Block;
use crate::geom::half_toward_zero;
use crate::geom::half_tz;
use crate::geom::DrawCmd;
use crate::geom::Rect;
use crate::geom::Vec2;
use crate::player::moved_x;
use crate::player::Player;
use crate::Color;
use crate::BALL_SIZE;
use crate::BALL_STEP;
use crate::BLOCK_PADDING;
use crate::BLOCK_SIZE_X;
use crate::BLOCK_SIZE_Y;
use crate::MAX_COORD;
use crate::MAX_DT;
use crate::MILLI;
use vstd::arithmetic::div_mod::lemma_fundamental_div_mod;
use vstd::prelude::*;

verus! {

/// Horizontal and vertical stride from one grid cell to the next: a
/// block plus the gap that separates neighbours.
pub const BLOCK_STRIDE_X: i64 = BLOCK_SIZE_X + BLOCK_PADDING;

pub const BLOCK_STRIDE_Y: i64 = BLOCK_SIZE_Y + BLOCK_PADDING;

/// Vertical position of the board's first row: 50 screen units down.
pub const BOARD_TOP: i64 = 50 * MILLI;

/// Columns and rows of the standard board.
pub const GRID_COLS: usize = 4;

pub const GRID_ROWS: usize = 4;

/// Horizontal position of the board's first column: the space left over
/// by `cols` strides, split evenly between the two sides.
pub open spec fn board_start_x(screen_w: int, cols: int) -> int {
    half_toward_zero(screen_w - cols * BLOCK_STRIDE_X)
}

/// Horizontal position of grid cell `i` in a board of `cols` columns.
pub open spec fn grid_x(screen_w: int, cols: int, i: int) -> int {
    board_start_x(screen_w, cols) + (i % cols) * BLOCK_STRIDE_X
}

/// Vertical position of grid cell `i` in a board of `cols` columns.
pub open spec fn grid_y(cols: int, i: int) -> int {
    BOARD_TOP + (i / cols) * BLOCK_STRIDE_Y
}

/// The block board: `cols * rows` live blocks laid out row-major on the
/// grid, with the whole board centered horizontally.
pub fn make_blocks(screen_w: i64, cols: usize, rows: usize, color: Color) -> (blocks: Vec<Block>)
    requires
        0 <= screen_w <= MAX_COORD,
        1 <= cols <= 100,
        1 <= rows <= 100,
    ensures
        blocks@.len() == cols * rows,
        forall|i: int|
            0 <= i < blocks@.len() ==> {
                &&& #[trigger] blocks@[i] == (Block {
                    rect: Rect {
                        x: blocks@[i].rect.x,
                        y: blocks@[i].rect.y,
                        w: BLOCK_SIZE_X,
                        h: BLOCK_SIZE_Y,
                    },
                    color,
                    alive: true,
                })
                &&& blocks@[i].rect.x == grid_x(screen_w as int, cols as int, i)
                &&& blocks@[i].rect.y == grid_y(cols as int, i)
                &&& blocks@[i].wf()
            },
{
    proof {
        assert(cols * rows <= 10_000) by (nonlinear_arith)
            requires
                cols <= 100,
                rows <= 100,
        ;
    }
    let total: usize = cols * rows;
    proof {
        assert(0 <= (cols as int) * (BLOCK_STRIDE_X as int) <= 16_000_000) by (nonlinear_arith)
            requires
                1 <= cols <= 100,
                BLOCK_STRIDE_X == 160_000,
        ;
    }
    let start_x: i64 = half_tz(screen_w - (cols as i64) * BLOCK_STRIDE_X);
    proof {
        assert(-MAX_COORD <= start_x <= MAX_COORD);
    }
    let mut blocks: Vec<Block> = Vec::new();
    let mut i: usize = 0;
    while i < total
        invariant
            total == cols * rows,
            total <= 10_000,
            1 <= cols <= 100,
            1 <= rows <= 100,
            0 <= screen_w <= MAX_COORD,
            start_x == board_start_x(screen_w as int, cols as int),
            -MAX_COORD <= start_x <= MAX_COORD,
            i <= total,
            blocks@.len() == i,
            forall|j: int|
                0 <= j < i ==> {
                    &&& #[trigger] blocks@[j] == (Block {
                        rect: Rect {
                            x: blocks@[j].rect.x,
                            y: blocks@[j].rect.y,
                            w: BLOCK_SIZE_X,
                            h: BLOCK_SIZE_Y,
                        },
                        color,
                        alive: true,
                    })
                    &&& blocks@[j].rect.x == grid_x(screen_w as int, cols as int, j)
                    &&& blocks@[j].rect.y == grid_y(cols as int, j)
                    &&& blocks@[j].wf()
                },
        decreases total - i,
    {
        let col: usize = i % cols;
        let row: usize = i / cols;
        proof {
            assert(col < cols && row < 100) by (nonlinear_arith)
                requires
                    col == (i as int) % (cols as int),
                    row == (i as int) / (cols as int),
                    1 <= cols <= 100,
                    0 <= i < cols * rows,
                    rows <= 100,
            ;
        }
        proof {
            assert(0 <= (col as int) * (BLOCK_STRIDE_X as int) <= 16_000_000 && 0 <= (row as int) * (
            BLOCK_STRIDE_Y as int) <= 5_000_000) by (nonlinear_arith)
                requires
                    0 <= col <= 100,
                    0 <= row <= 100,
                    BLOCK_STRIDE_X == 160_000,
                    BLOCK_STRIDE_Y == 50_000,
            ;
        }
        let bx: i64 = start_x + (col as i64) * BLOCK_STRIDE_X;
        let by: i64 = BOARD_TOP + (row as i64) * BLOCK_STRIDE_Y;
        blocks.push(Block::new(Vec2 { x: bx, y: by }, color));
        i = i + 1;
    }
    blocks
}

/// The standard board tiles without overlap, and fits the playfield
/// whenever the playfield is at least as wide as `cols` grid strides
/// (640 screen units for the standard four columns): distinct cells'
/// rectangles are separated on some axis, and every cell lies within
/// `[0, screen_w]` horizontally.
pub proof fn lemma_grid_layout(screen_w: int, cols: int, rows: int, i: int, j: int)
    requires
        1 <= cols <= 100,
        1 <= rows <= 100,
        cols * BLOCK_STRIDE_X <= screen_w <= MAX_COORD,
        0 <= i < cols * rows,
        0 <= j < cols * rows,
        i != j,
    ensures
        grid_x(screen_w, cols, i) + BLOCK_SIZE_X <= grid_x(screen_w, cols, j) || grid_x(
            screen_w,
            cols,
            j,
        ) + BLOCK_SIZE_X <= grid_x(screen_w, cols, i) || grid_y(cols, i) + BLOCK_SIZE_Y <= grid_y(
            cols,
            j,
        ) || grid_y(cols, j) + BLOCK_SIZE_Y <= grid_y(cols, i),
        0 <= grid_x(screen_w, cols, i),
        grid_x(screen_w, cols, i) + BLOCK_SIZE_X <= screen_w,
{
    lemma_fundamental_div_mod(i, cols);
    lemma_fundamental_div_mod(j, cols);
    let ci: int = i % cols;
    let cj: int = j % cols;
    let ri: int = i / cols;
    let rj: int = j / cols;
    assert(0 <= ci < cols && 0 <= cj < cols && 0 <= ri && 0 <= rj) by (nonlinear_arith)
        requires
            1 <= cols,
            0 <= i,
            0 <= j,
            ci == i % cols,
            cj == j % cols,
            ri == i / cols,
            rj == j / cols,
    ;
    if ci != cj {
        assert(ci * BLOCK_STRIDE_X + BLOCK_STRIDE_X <= cj * BLOCK_STRIDE_X || cj * BLOCK_STRIDE_X
            + BLOCK_STRIDE_X <= ci * BLOCK_STRIDE_X) by (nonlinear_arith)
            requires
                ci != cj,
                0 <= ci,
                0 <= cj,
        ;
    } else {
        assert(ri != rj) by (nonlinear_arith)
            requires
                i == cols * ri + ci,
                j == cols * rj + cj,
                ci == cj,
                i != j,
        ;
        assert(ri * BLOCK_STRIDE_Y + BLOCK_STRIDE_Y <= rj * BLOCK_STRIDE_Y || rj * BLOCK_STRIDE_Y
            + BLOCK_STRIDE_Y <= ri * BLOCK_STRIDE_Y) by (nonlinear_arith)
            requires
                ri != rj,
                0 <= ri,
                0 <= rj,
        ;
    }
    let d: int = screen_w - cols * BLOCK_STRIDE_X;
    assert(0 <= d / 2 <= d) by (nonlinear_arith)
        requires
            d >= 0,
    ;
    assert(board_start_x(screen_w, cols) == d / 2);
    assert(ci * BLOCK_STRIDE_X + BLOCK_SIZE_X <= cols * BLOCK_STRIDE_X) by (nonlinear_arith)
        requires
            0 <= ci < cols,
            BLOCK_SIZE_X <= BLOCK_STRIDE_X,
    ;
    assert(0 <= ci * BLOCK_STRIDE_X) by (nonlinear_arith)
        requires
            0 <= ci,
    ;
}

/// Whether the session is still running, or how it ended: every ball
/// past the bottom edge loses it, clearing every block wins it.
#[derive(Clone, Copy, PartialEq, Eq, Structural, Debug)]
pub enum Status {
    Playing,
    Lost,
    Won,
}

/// The given ball with its vertical velocity reflected.
pub open spec fn flip_y(b: Ball) -> Ball {
    Ball {
        rect: b.rect,
        vel: Vec2 { x: b.vel.x, y: (0 - b.vel.y) as i64 },
        color: b.color,
    }
}

/// A ball after the move and wall-reflection rules of one step.
pub open spec fn ball_after_walls(b: Ball, dt: int, screen_w: int) -> Ball {
    let x = ball_x_after(b, dt);
    let y = ball_y_after(b, dt);
    Ball {
        rect: Rect { x: x as i64, y: y as i64, w: b.rect.w, h: b.rect.h },
        vel: Vec2 {
            x: vel_x_after(x, b.vel.x as int, screen_w) as i64,
            y: vel_y_after(y, b.vel.y as int) as i64,
        },
        color: b.color,
    }
}

/// Paddle bounce: a ball overlapping the paddle while moving down has
/// its vertical velocity reflected upward.
pub open spec fn bounce_paddle(b: Ball, paddle: Rect) -> Ball {
    if b.rect.spec_overlaps(paddle) && b.vel.y > 0 {
        flip_y(b)
    } else {
        b
    }
}

/// Whether the ball's bound overlaps any live block.
pub open spec fn hits_any_block(b: Ball, blocks: Seq<Block>) -> bool {
    exists|i: int|
        0 <= i < blocks.len() && (#[trigger] blocks[i]).alive && b.rect.spec_overlaps(
            blocks[i].rect,
        )
}

/// Every live block the ball's bound overlaps, struck dead; the rest
/// are kept as they are.
pub open spec fn strike_blocks(b: Ball, blocks: Seq<Block>) -> Seq<Block> {
    blocks.map(
        |i: int, blk: Block|
            if blk.alive && b.rect.spec_overlaps(blk.rect) {
                Block { rect: blk.rect, color: blk.color, alive: false }
            } else {
                blk
            },
    )
}

/// One ball's full step: move and reflect off the walls, bounce off the
/// paddle, strike every overlapping live block dead, and reflect the
/// vertical velocity once if any block was struck.
pub open spec fn ball_step(b: Ball, blocks: Seq<Block>, paddle: Rect, dt: int, screen_w: int) -> (
    Ball,
    Seq<Block>,
) {
    let moved = bounce_paddle(ball_after_walls(b, dt, screen_w), paddle);
    (
        (if hits_any_block(moved, blocks) {
            flip_y(moved)
        } else {
            moved
        }),
        strike_blocks(moved, blocks),
    )
}

/// All balls stepped in order, each seeing the blocks the previous ball
/// left behind.
pub open spec fn balls_step(
    balls: Seq<Ball>,
    blocks: Seq<Block>,
    paddle: Rect,
    dt: int,
    screen_w: int,
) -> (Seq<Ball>, Seq<Block>)
    decreases balls.len(),
{
    if balls.len() == 0 {
        (balls, blocks)
    } else {
        let first = ball_step(balls[0], blocks, paddle, dt, screen_w);
        let rest = balls_step(balls.drop_first(), first.1, paddle, dt, screen_w);
        (seq![first.0] + rest.0, rest.1)
    }
}

/// Whether some ball has left the playfield past the bottom edge.
pub open spec fn any_ball_below(balls: Seq<Ball>, screen_h: int) -> bool {
    exists|i: int| 0 <= i < balls.len() && (#[trigger] balls[i]).rect.y > screen_h
}

/// Whether every block of the board has been struck dead.
pub open spec fn all_blocks_dead(blocks: Seq<Block>) -> bool {
    forall|i: int| 0 <= i < blocks.len() ==> !(#[trigger] blocks[i]).alive
}

/// The status after a step: a lost ball ends the session before a
/// cleared board wins it; otherwise play goes on.
pub open spec fn status_after(balls: Seq<Ball>, blocks: Seq<Block>, screen_h: int) -> Status {
    if any_ball_below(balls, screen_h) {
        Status::Lost
    } else if all_blocks_dead(blocks) {
        Status::Won
    } else {
        Status::Playing
    }
}

/// One ball's step, performed in place: move the ball, bounce it off the
/// paddle, and strike the blocks it overlaps.
fn step_one(b: &mut Ball, blocks: &mut Vec<Block>, paddle: &Rect, dt: u32, screen_w: i64)
    requires
        old(b).wf(),
        -MAX_COORD <= old(b).rect.x <= MAX_COORD,
        -MAX_COORD <= old(b).rect.y <= MAX_COORD,
        dt <= MAX_DT,
        0 <= screen_w <= MAX_COORD,
        paddle.valid(),
        -MAX_COORD <= paddle.x <= MAX_COORD,
        -MAX_COORD <= paddle.y <= MAX_COORD,
        0 < paddle.w <= MAX_COORD,
        0 < paddle.h <= MAX_COORD,
        forall|i: int| 0 <= i < old(blocks)@.len() ==> (#[trigger] old(blocks)@[i]).wf(),
    ensures
        final(b).wf(),
        forall|i: int| 0 <= i < final(blocks)@.len() ==> (#[trigger] final(blocks)@[i]).wf(),
        (*final(b), final(blocks)@) == ball_step(
            *old(b),
            old(blocks)@,
            *paddle,
            dt as int,
            screen_w as int,
        ),
{
    let ghost b0 = *old(b);
    let ghost blocks0 = old(blocks)@;
    b.update(dt, screen_w);
    proof {
        assert(-400_000_000 <= (b0.vel.x as int) * BALL_STEP * (dt as int) <= 400_000_000
            && -400_000_000 <= (b0.vel.y as int) * BALL_STEP * (dt as int) <= 400_000_000) by (
        nonlinear_arith)
            requires
                -100 <= b0.vel.x as int <= 100,
                -100 <= b0.vel.y as int <= 100,
                0 <= dt as int <= 1_000_000,
                BALL_STEP == 4,
        ;
    }
    assert(*b == ball_after_walls(b0, dt as int, screen_w as int));
    if b.rect.overlaps(paddle) && b.vel.y > 0 {
        b.vel.y = -b.vel.y;
    }
    let ghost m = bounce_paddle(ball_after_walls(b0, dt as int, screen_w as int), *paddle);
    assert(*b == m);
    let mut hit: bool = false;
    let mut t: usize = 0;
    let n: usize = blocks.len();
    while t < n
        invariant
            n == blocks@.len(),
            blocks@.len() == blocks0.len(),
            t <= n,
            *b == m,
            b.wf(),
            -MAX_COORD - 400_000_000 <= b.rect.x <= MAX_COORD + 400_000_000,
            -MAX_COORD - 400_000_000 <= b.rect.y <= MAX_COORD + 400_000_000,
            forall|j: int| 0 <= j < blocks0.len() ==> (#[trigger] blocks0[j]).wf(),
            forall|j: int| t <= j < blocks0.len() ==> #[trigger] blocks@[j] == blocks0[j],
            forall|j: int|
                0 <= j < t ==> #[trigger] blocks@[j] == strike_blocks(m, blocks0)[j],
            hit == exists|j: int|
                0 <= j < t && (#[trigger] blocks0[j]).alive && m.rect.spec_overlaps(
                    blocks0[j].rect,
                ),
        decreases n - t,
    {
        let blk: Block = blocks[t];
        if blk.alive && b.rect.overlaps(&blk.rect) {
            blocks[t] = Block { rect: blk.rect, color: blk.color, alive: false };
            hit = true;
        }
        t = t + 1;
    }
    assert(blocks@ =~= strike_blocks(m, blocks0));
    assert(hit == hits_any_block(m, blocks0));
    if hit {
        b.vel.y = -b.vel.y;
    }
}

/// The whole game: the paddle, the block board, the balls in flight,
/// and whether the session is still running.
pub struct GameState {
    pub player: Player,
    pub blocks: Vec<Block>,
    pub balls: Vec<Ball>,
    pub status: Status,
}

impl GameState {
    /// Every entity is well formed.
    pub open spec fn wf(self) -> bool {
        &&& self.player.wf()
        &&& forall|i: int| 0 <= i < self.blocks@.len() ==> (#[trigger] self.blocks@[i]).wf()
        &&& forall|i: int| 0 <= i < self.balls@.len() ==> (#[trigger] self.balls@[i]).wf()
    }

    /// Every ball's position lies within the coordinate range the update
    /// rules accept.
    pub open spec fn spec_balls_in_bounds(self) -> bool {
        forall|i: int|
            0 <= i < self.balls@.len() ==> {
                &&& -MAX_COORD <= (#[trigger] self.balls@[i]).rect.x <= MAX_COORD
                &&& -MAX_COORD <= self.balls@[i].rect.y <= MAX_COORD
            }
    }

    /// Whether every ball lies within the accepted coordinate range; the
    /// host checks this before asking for a frame step.
    pub fn balls_in_bounds(&self) -> (r: bool)
        ensures
            r == self.spec_balls_in_bounds(),
    {
        let mut i: usize = 0;
        while i < self.balls.len()
            invariant
                i <= self.balls@.len(),
                forall|j: int|
                    0 <= j < i ==> {
                        &&& -MAX_COORD <= (#[trigger] self.balls@[j]).rect.x <= MAX_COORD
                        &&& -MAX_COORD <= self.balls@[j].rect.y <= MAX_COORD
                    },
            decreases self.balls@.len() - i,
        {
            let b: Ball = self.balls[i];
            if b.rect.x < -MAX_COORD || b.rect.x > MAX_COORD || b.rect.y < -MAX_COORD || b.rect.y
                > MAX_COORD {
                return false;
            }
            i = i + 1;
        }
        true
    }

    /// A fresh session: the paddle centered near the bottom, the standard
    /// board of live blocks, and one ball launched from the playfield's
    /// center with a randomized direction.
    pub fn new(
        screen_w: i64,
        screen_h: i64,
        player_color: Color,
        block_color: Color,
        ball_color: Color,
    ) -> (g: GameState)
        requires
            0 <= screen_w <= MAX_COORD,
            0 <= screen_h <= MAX_COORD,
        ensures
            g.wf(),
            g.spec_balls_in_bounds(),
            g.status == Status::Playing,
            g.player.rect.x == crate::player::start_x(screen_w as int),
            g.player.rect.y == screen_h - 100_000,
            g.player.color == player_color,
            g.blocks@.len() == GRID_COLS * GRID_ROWS,
            forall|i: int|
                0 <= i < g.blocks@.len() ==> {
                    &&& (#[trigger] g.blocks@[i]).rect.x == grid_x(
                        screen_w as int,
                        GRID_COLS as int,
                        i,
                    )
                    &&& g.blocks@[i].rect.y == grid_y(GRID_COLS as int, i)
                    &&& g.blocks@[i].rect.w == BLOCK_SIZE_X
                    &&& g.blocks@[i].rect.h == BLOCK_SIZE_Y
                    &&& g.blocks@[i].color == block_color
                    &&& g.blocks@[i].alive
                },
            g.balls@.len() == 1,
            g.balls@[0].rect.x == screen_w as int / 2,
            g.balls@[0].rect.y == screen_h as int / 2,
            g.balls@[0].rect.w == BALL_SIZE,
            g.balls@[0].rect.h == BALL_SIZE,
            g.balls@[0].color == ball_color,
            g.balls@[0].vel.y >= 1,
    {
        let player = Player::new(screen_w, screen_h, player_color);
        let blocks = make_blocks(screen_w, GRID_COLS, GRID_ROWS, block_color);
        let cx: i64 = ((screen_w as u64) / 2) as i64;
        let cy: i64 = ((screen_h as u64) / 2) as i64;
        let mut balls: Vec<Ball> = Vec::new();
        balls.push(Ball::new(Vec2 { x: cx, y: cy }, ball_color));
        GameState { player, blocks, balls, status: Status::Playing }
    }

    /// One frame of the session. While the session is playing, the paddle
    /// moves by the input, every ball steps in order through walls,
    /// paddle and blocks (each seeing the blocks the previous ball left),
    /// and the status is settled from what remains; once the session is
    /// lost or won, nothing changes any more.
    pub fn update(
        &mut self,
        dt: u32,
        left_down: bool,
        right_down: bool,
        screen_w: i64,
        screen_h: i64,
    )
        requires
            old(self).wf(),
            old(self).spec_balls_in_bounds(),
            dt <= MAX_DT,
            0 <= screen_w <= MAX_COORD,
            0 <= screen_h <= MAX_COORD,
        ensures
            final(self).wf(),
            old(self).status != Status::Playing ==> *final(self) == *old(self),
            old(self).status == Status::Playing ==> {
                &&& final(self).player.rect.x == moved_x(
                    old(self).player.rect.x as int,
                    left_down,
                    right_down,
                    dt as int,
                    screen_w as int,
                )
                &&& final(self).player.rect.y == old(self).player.rect.y
                &&& final(self).player.color == old(self).player.color
                &&& final(self).balls@ == balls_step(
                    old(self).balls@,
                    old(self).blocks@,
                    final(self).player.rect,
                    dt as int,
                    screen_w as int,
                ).0
                &&& final(self).blocks@ == balls_step(
                    old(self).balls@,
                    old(self).blocks@,
                    final(self).player.rect,
                    dt as int,
                    screen_w as int,
                ).1
                &&& final(self).status == status_after(
                    final(self).balls@,
                    final(self).blocks@,
                    screen_h as int,
                )
            },
    {
        match self.status {
            Status::Playing => {},
            _ => {
                return ;
            },
        }
        self.player.update(dt, left_down, right_down, screen_w);
        let paddle: Rect = self.player.rect;
        let ghost balls0 = self.balls@;
        let ghost blocks0 = self.blocks@;
        let ghost moved_player = self.player;
        let n: usize = self.balls.len();
        proof {
            assert(balls0.skip(0) =~= balls0);
            assert(self.balls@.subrange(0, 0) =~= Seq::<Ball>::empty());
            assert(Seq::<Ball>::empty() + balls_step(
                balls0,
                blocks0,
                paddle,
                dt as int,
                screen_w as int,
            ).0 =~= balls_step(balls0, blocks0, paddle, dt as int, screen_w as int).0);
        }
        let mut k: usize = 0;
        while k < n
            invariant
                n == balls0.len(),
                self.balls@.len() == n,
                k <= n,
                self.player == moved_player,
                self.status == Status::Playing,
                paddle == moved_player.rect,
                moved_player.wf(),
                dt <= MAX_DT,
                0 <= screen_w <= MAX_COORD,
                forall|j: int| 0 <= j < n ==> (#[trigger] balls0[j]).wf(),
                forall|j: int| 0 <= j < self.blocks@.len() ==> (#[trigger] self.blocks@[j]).wf(),
                forall|j: int| 0 <= j < n ==> (#[trigger] self.balls@[j]).wf(),
                forall|j: int| k <= j < n ==> #[trigger] self.balls@[j] == balls0[j],
                forall|j: int|
                    k <= j < n ==> {
                        &&& -MAX_COORD <= (#[trigger] balls0[j]).rect.x <= MAX_COORD
                        &&& -MAX_COORD <= balls0[j].rect.y <= MAX_COORD
                    },
                balls_step(balls0, blocks0, paddle, dt as int, screen_w as int).0
                    == self.balls@.subrange(0, k as int) + balls_step(
                    balls0.skip(k as int),
                    self.blocks@,
                    paddle,
                    dt as int,
                    screen_w as int,
                ).0,
                balls_step(balls0, blocks0, paddle, dt as int, screen_w as int).1 == balls_step(
                    balls0.skip(k as int),
                    self.blocks@,
                    paddle,
                    dt as int,
                    screen_w as int,
                ).1,
            decreases n - k,
        {
            let ghost ka = k as int;
            let ghost pre_balls = self.balls@;
            let ghost pre_blocks = self.blocks@;
            let mut b: Ball = self.balls[k];
            step_one(&mut b, &mut self.blocks, &paddle, dt, screen_w);
            self.balls[k] = b;
            proof {
                let s = ball_step(balls0[ka], pre_blocks, paddle, dt as int, screen_w as int);
                assert(b == s.0 && self.blocks@ == s.1);
                assert(balls0.skip(ka)[0] == balls0[ka]);
                assert(balls0.skip(ka).len() == n - ka);
                assert(balls0.skip(ka).drop_first() =~= balls0.skip(ka + 1));
                assert(balls_step(balls0.skip(ka), pre_blocks, paddle, dt as int, screen_w as int).0
                    == seq![s.0] + balls_step(
                    balls0.skip(ka + 1),
                    s.1,
                    paddle,
                    dt as int,
                    screen_w as int,
                ).0);
                assert(balls_step(balls0.skip(ka), pre_blocks, paddle, dt as int, screen_w as int).1
                    == balls_step(balls0.skip(ka + 1), s.1, paddle, dt as int, screen_w as int).1);
                assert(pre_balls.subrange(0, ka) =~= self.balls@.subrange(0, ka));
                assert(self.balls@.subrange(0, ka + 1) =~= self.balls@.subrange(0, ka) + seq![b]);
                assert(self.balls@.subrange(0, ka) + (seq![s.0] + balls_step(
                    balls0.skip(ka + 1),
                    s.1,
                    paddle,
                    dt as int,
                    screen_w as int,
                ).0) =~= self.balls@.subrange(0, ka + 1) + balls_step(
                    balls0.skip(ka + 1),
                    s.1,
                    paddle,
                    dt as int,
                    screen_w as int,
                ).0);
            }
            k = k + 1;
        }
        proof {
            assert(balls0.skip(n as int) =~= Seq::<Ball>::empty());
            assert(self.balls@.subrange(0, n as int) =~= self.balls@);
            assert(self.balls@ + balls_step(
                balls0.skip(n as int),
                self.blocks@,
                paddle,
                dt as int,
                screen_w as int,
            ).0 =~= self.balls@);
        }
        let mut below: bool = false;
        let mut i: usize = 0;
        while i < self.balls.len()
            invariant
                i <= self.balls@.len(),
                below == exists|j: int|
                    0 <= j < i && (#[trigger] self.balls@[j]).rect.y > screen_h,
            decreases self.balls@.len() - i,
        {
            if self.balls[i].rect.y > screen_h {
                below = true;
            }
            i = i + 1;
        }
        let mut alldead: bool = true;
        let mut t: usize = 0;
        while t < self.blocks.len()
            invariant
                t <= self.blocks@.len(),
                alldead == forall|j: int| 0 <= j < t ==> !(#[trigger] self.blocks@[j]).alive,
            decreases self.blocks@.len() - t,
        {
            if self.blocks[t].alive {
                alldead = false;
            }
            t = t + 1;
        }
        self.status = if below {
            Status::Lost
        } else if alldead {
            Status::Won
        } else {
            Status::Playing
        };
    }

    /// The frame's whole scene: the paddle, every live block, and every
    /// ball, as one sequence of draw commands.
    pub open spec fn draw_spec(self) -> Seq<DrawCmd> {
        seq![self.player.draw_spec()] + blocks_draw(self.blocks@) + balls_draw(self.balls@)
    }

    /// Render the state: a pure function of the state with no hidden
    /// mutation, so an unchanged state draws an identical scene.
    pub fn draw(&self) -> (cmds: Vec<DrawCmd>)
        ensures
            cmds@ == self.draw_spec(),
    {
        let mut cmds: Vec<DrawCmd> = Vec::new();
        cmds.push(self.player.draw());
        let mut i: usize = 0;
        while i < self.blocks.len()
            invariant
                i <= self.blocks@.len(),
                cmds@ == seq![self.player.draw_spec()] + blocks_draw(
                    self.blocks@.subrange(0, i as int),
                ),
            decreases self.blocks@.len() - i,
        {
            let blk: Block = self.blocks[i];
            if blk.alive {
                cmds.push(blk.draw());
            }
            proof {
                let ia = i as int;
                assert(self.blocks@.subrange(0, ia + 1).drop_last() =~= self.blocks@.subrange(
                    0,
                    ia,
                ));
                assert(self.blocks@.subrange(0, ia + 1).last() == self.blocks@[ia]);
                if self.blocks@[ia].alive {
                    assert(cmds@ =~= seq![self.player.draw_spec()] + blocks_draw(
                        self.blocks@.subrange(0, ia + 1),
                    ));
                } else {
                    assert(blocks_draw(self.blocks@.subrange(0, ia + 1)) =~= blocks_draw(
                        self.blocks@.subrange(0, ia),
                    ));
                }
            }
            i = i + 1;
        }
        proof {
            assert(self.blocks@.subrange(0, self.blocks@.len() as int) =~= self.blocks@);
        }
        let mut t: usize = 0;
        while t < self.balls.len()
            invariant
                t <= self.balls@.len(),
                cmds@ == seq![self.player.draw_spec()] + blocks_draw(self.blocks@) + balls_draw(
                    self.balls@.subrange(0, t as int),
                ),
            decreases self.balls@.len() - t,
        {
            let bl: Ball = self.balls[t];
            cmds.push(bl.draw());
            proof {
                let ta = t as int;
                assert(self.balls@.subrange(0, ta + 1).drop_last() =~= self.balls@.subrange(0, ta));
                assert(self.balls@.subrange(0, ta + 1).last() == self.balls@[ta]);
                assert(cmds@ =~= seq![self.player.draw_spec()] + blocks_draw(self.blocks@)
                    + balls_draw(self.balls@.subrange(0, ta + 1)));
            }
            t = t + 1;
        }
        proof {
            assert(self.balls@.subrange(0, self.balls@.len() as int) =~= self.balls@);
        }
        cmds
    }
}

/// The renderer commands of the live blocks, in board order; dead blocks
/// are not rendered.
pub open spec fn blocks_draw(blocks: Seq<Block>) -> Seq<DrawCmd>
    decreases blocks.len(),
{
    if blocks.len() == 0 {
        Seq::empty()
    } else {
        blocks_draw(blocks.drop_last()) + (if blocks.last().alive {
            seq![blocks.last().draw_spec()]
        } else {
            Seq::empty()
        })
    }
}

/// The renderer commands of the balls, in order.
pub open spec fn balls_draw(balls: Seq<Ball>) -> Seq<DrawCmd>
    decreases balls.len(),
{
    if balls.len() == 0 {
        Seq::empty()
    } else {
        balls_draw(balls.drop_last()).push(balls.last().draw_spec())
    }
}

/// Rendering hides no state: any two scenes drawn from the same
/// unchanged state are identical.
pub proof fn lemma_draw_deterministic(s: GameState, a: Seq<DrawCmd>, b: Seq<DrawCmd>)
    requires
        a == s.draw_spec(),
        b == s.draw_spec(),
    ensures
        a == b,
{
}

} // verus!
