//! A destructible block of the grid: a fixed rectangle that a ball can
//! strike, after which it is dead and neither rendered nor collided with.

use crate::geom::DrawCmd;
use crate::geom::Rect;
use crate::geom::Vec2;
use crate::Color;
use crate::BLOCK_SIZE_X;
use crate::BLOCK_SIZE_Y;
use crate::MAX_COORD;
use vstd::prelude::*;

verus! {

/// One block of the grid, with a live flag instead of removal so that
/// indexing into the block array stays stable.
#[derive(Clone, Copy, PartialEq, Eq, Structural, Debug)]
pub struct Block {
    pub rect: Rect,
    pub color: Color,
    pub alive: bool,
}

impl Block {
    /// Blocks keep the fixed grid size and lie within the coordinate
    /// range the update rules accept.
    pub open spec fn wf(self) -> bool {
        self.rect.w == BLOCK_SIZE_X && self.rect.h == BLOCK_SIZE_Y && -MAX_COORD <= self.rect.x
            <= MAX_COORD && -MAX_COORD <= self.rect.y <= MAX_COORD
    }

    /// A live block at the given position, sized by the global constant.
    pub fn new(pos: Vec2, color: Color) -> (b: Block)
        requires
            -MAX_COORD <= pos.x <= MAX_COORD,
            -MAX_COORD <= pos.y <= MAX_COORD,
        ensures
            b.wf(),
            b.rect == (Rect { x: pos.x, y: pos.y, w: BLOCK_SIZE_X, h: BLOCK_SIZE_Y }),
            b.color == color,
            b.alive,
    {
        Block { rect: Rect::new(pos.x, pos.y, BLOCK_SIZE_X, BLOCK_SIZE_Y), color, alive: true }
    }

    /// What this block asks the renderer to draw.
    pub open spec fn draw_spec(self) -> DrawCmd {
        DrawCmd {
            x: self.rect.x,
            y: self.rect.y,
            w: self.rect.w,
            h: self.rect.h,
            color: self.color,
        }
    }

    /// The block's draw command: a pure function of the block's state, so
    /// repeated calls on an unchanged block render identically.
    pub fn draw(&self) -> (cmd: DrawCmd)
        ensures
            cmd == self.draw_spec(),
    {
        DrawCmd {
            x: self.rect.x,
            y: self.rect.y,
            w: self.rect.w,
            h: self.rect.h,
            color: self.color,
        }
    }
}

} // verus!
