//! The player's paddle: a rectangle moved horizontally by left/right
//! input and clamped to the playfield width.

use crate::geom::half_toward_zero;
use crate::geom::half_tz;
use crate::geom::DrawCmd;
use crate::geom::Rect;
use crate::Color;
use crate::MAX_COORD;
use crate::MAX_DT;
use crate::PLAYER_SIZE_X;
use crate::PLAYER_SIZE_Y;
use crate::PLAYER_SPEED;
use vstd::prelude::*;

verus! {

/// The centered starting position: the space the paddle leaves free,
/// split evenly between the two sides.
pub open spec fn start_x(screen_w: int) -> int {
    half_toward_zero(screen_w - PLAYER_SIZE_X)
}

/// Horizontal position after the hard boundary clamp into
/// `[0, screen_w - PLAYER_SIZE_X]`, applied as two successive corrections
/// (so with a playfield narrower than the paddle the right one wins).
pub open spec fn clamp_x(x: int, screen_w: int) -> int {
    let lo = if x < 0 {
        0
    } else {
        x
    };
    if lo > screen_w - PLAYER_SIZE_X {
        screen_w - PLAYER_SIZE_X
    } else {
        lo
    }
}

/// Horizontal position after one update step: exactly one active input
/// signal moves the paddle by speed times delta time in its direction,
/// both or neither cancel out; then the position is clamped.
pub open spec fn moved_x(x: int, left: bool, right: bool, dt: int, screen_w: int) -> int {
    let shift = dt * PLAYER_SPEED;
    let moved = if left && !right {
        x - shift
    } else if right && !left {
        x + shift
    } else {
        x
    };
    clamp_x(moved, screen_w)
}

/// The paddle: a mutable-position rectangle of fixed size, and its colour.
#[derive(Clone, Copy, PartialEq, Eq, Structural, Debug)]
pub struct Player {
    pub rect: Rect,
    pub color: Color,
}

impl Player {
    /// The paddle keeps its fixed size and stays within the coordinate
    /// range the update rules accept.
    pub open spec fn wf(self) -> bool {
        self.rect.w == PLAYER_SIZE_X && self.rect.h == PLAYER_SIZE_Y && -MAX_COORD <= self.rect.x
            <= MAX_COORD && -MAX_COORD <= self.rect.y <= MAX_COORD
    }

    /// A new paddle, centered horizontally and 100 screen units above
    /// the playfield's bottom edge.
    pub fn new(screen_w: i64, screen_h: i64, color: Color) -> (p: Player)
        requires
            0 <= screen_w <= MAX_COORD,
            0 <= screen_h <= MAX_COORD,
        ensures
            p.wf(),
            p.rect.x == start_x(screen_w as int),
            p.rect.y == screen_h - 100_000,
            p.rect.w == PLAYER_SIZE_X,
            p.rect.h == PLAYER_SIZE_Y,
            p.color == color,
    {
        let centered: i64 = half_tz(screen_w - PLAYER_SIZE_X);
        Player {
            rect: Rect::new(centered, screen_h - 100_000, PLAYER_SIZE_X, PLAYER_SIZE_Y),
            color,
        }
    }

    /// One update step: read the two input signals, advance the position
    /// by the resulting velocity over `dt` milliseconds, then clamp into
    /// the playfield. Whenever the paddle fits the playfield at all, the
    /// position afterwards lies within `[0, screen_w - PLAYER_SIZE_X]`.
    pub fn update(&mut self, dt: u32, left_down: bool, right_down: bool, screen_w: i64)
        requires
            old(self).wf(),
            dt <= MAX_DT,
            0 <= screen_w <= MAX_COORD,
        ensures
            final(self).wf(),
            final(self).rect.x == moved_x(
                old(self).rect.x as int,
                left_down,
                right_down,
                dt as int,
                screen_w as int,
            ),
            final(self).rect.y == old(self).rect.y,
            final(self).rect.w == old(self).rect.w,
            final(self).rect.h == old(self).rect.h,
            final(self).color == old(self).color,
            screen_w >= PLAYER_SIZE_X ==> 0 <= final(self).rect.x <= screen_w - PLAYER_SIZE_X,
    {
        let shift: i64 = (dt as i64) * PLAYER_SPEED;
        match (left_down, right_down) {
            (true, false) => self.rect.x = self.rect.x - shift,
            (false, true) => self.rect.x = self.rect.x + shift,
            _ => (),
        };
        if self.rect.x < 0 {
            self.rect.x = 0;
        }
        if self.rect.x > screen_w - self.rect.w {
            self.rect.x = screen_w - self.rect.w;
        }
    }

    /// What this paddle asks the renderer to draw.
    pub open spec fn draw_spec(self) -> DrawCmd {
        DrawCmd {
            x: self.rect.x,
            y: self.rect.y,
            w: self.rect.w,
            h: self.rect.h,
            color: self.color,
        }
    }

    /// The paddle's draw command: a pure function of the paddle's state,
    /// so repeated calls on an unchanged paddle render identically.
    pub fn draw(&self) -> (cmd: DrawCmd)
        ensures
            cmd == self.draw_spec(),
    {
        DrawCmd {
            x: self.rect.x,
            y: self.rect.y,
            w: self.rect.w,
            h: self.rect.h,
            color: self.color,
        }
    }
}

/// For every delta time and any combination of the two input signals,
/// the paddle's position after an update lies within
/// `[0, screen_w - PLAYER_SIZE_X]`, whenever the paddle fits the
/// playfield at all.
pub proof fn lemma_update_stays_in_playfield(
    x: int,
    left: bool,
    right: bool,
    dt: int,
    screen_w: int,
)
    requires
        0 <= dt,
        screen_w >= PLAYER_SIZE_X,
    ensures
        0 <= moved_x(x, left, right, dt, screen_w) <= screen_w - PLAYER_SIZE_X,
{
}

/// With both input signals active at once the velocities cancel: an
/// update never moves a paddle that already lies within the playfield.
pub proof fn lemma_opposed_input_is_no_move(x: int, dt: int, screen_w: int)
    requires
        0 <= x <= screen_w - PLAYER_SIZE_X,
        0 <= dt,
    ensures
        moved_x(x, true, true, dt, screen_w) == x,
{
}

} // verus!
