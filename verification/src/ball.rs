//! The ball: a square collision bound moving with a constant-speed
//! direction vector, reflecting off the playfield's left, right and top
//! edges. Directions are fixed-point vectors whose unit length is
//! `VEL_SCALE`; a new ball's direction is the normalization of a
//! randomized horizontal component over a fixed downward vertical one.

use crate::geom::DrawCmd;
use crate::geom::Rect;
use crate::geom::Vec2;
use crate::rng::gen_range_i64;
use crate::Color;
use crate::BALL_SIZE;
use crate::BALL_STEP;
use crate::MAX_COORD;
use crate::MAX_DT;
use crate::VEL_SCALE;
use vstd::arithmetic::div_mod::lemma_fundamental_div_mod;
use vstd::prelude::*;

verus! {

/// The floor of the square root: the largest `r` with `r * r <= n`.
pub open spec fn sqrt_spec(n: nat) -> nat
    decreases n,
{
    if n == 0 {
        0
    } else {
        let r = sqrt_spec((n - 1) as nat);
        if (r + 1) * (r + 1) <= n {
            r + 1
        } else {
            r
        }
    }
}

/// `sqrt_spec(n)` squared is at most `n`, and the next square is above it.
pub proof fn lemma_sqrt_spec(n: nat)
    ensures
        sqrt_spec(n) * sqrt_spec(n) <= n < (sqrt_spec(n) + 1) * (sqrt_spec(n) + 1),
    decreases n,
{
    if n > 0 {
        lemma_sqrt_spec((n - 1) as nat);
        let r = sqrt_spec((n - 1) as nat);
        if (r + 1) * (r + 1) <= n {
            assert(sqrt_spec(n) == r + 1);
            assert(n <= (r + 1) * (r + 1));
            assert((r + 1) * (r + 1) < (r + 2) * (r + 2)) by (nonlinear_arith);
            assert((r + 2) * (r + 2) == (sqrt_spec(n) + 1) * (sqrt_spec(n) + 1));
            assert(sqrt_spec(n) * sqrt_spec(n) <= n < (sqrt_spec(n) + 1) * (sqrt_spec(n) + 1)) by (
            nonlinear_arith)
                requires
                    sqrt_spec(n) == r + 1,
                    (r + 1) * (r + 1) <= n,
                    n < (r + 2) * (r + 2),
            ;
        } else {
            assert(sqrt_spec(n) == r);
            assert(sqrt_spec(n) * sqrt_spec(n) <= n < (sqrt_spec(n) + 1) * (sqrt_spec(n) + 1)) by (
            nonlinear_arith)
                requires
                    sqrt_spec(n) == r,
                    r * r <= n,
                    !((r + 1) * (r + 1) <= n),
            ;
        }
    } else {
        assert(sqrt_spec(n) * sqrt_spec(n) <= n < (sqrt_spec(n) + 1) * (sqrt_spec(n) + 1)) by (
        nonlinear_arith)
            requires
                n == 0,
                sqrt_spec(n) == 0,
        ;
    }
}

/// The floor of the square root is unique: any `r` whose square brackets
/// `n` is `sqrt_spec(n)`.
pub proof fn lemma_sqrt_unique(n: nat, r: nat)
    requires
        r * r <= n < (r + 1) * (r + 1),
    ensures
        r == sqrt_spec(n),
{
    lemma_sqrt_spec(n);
    let s = sqrt_spec(n);
    if r < s {
        assert((r + 1) * (r + 1) <= s * s) by (nonlinear_arith)
            requires
                r + 1 <= s,
        ;
    } else if s < r {
        assert((s + 1) * (s + 1) <= r * r) by (nonlinear_arith)
            requires
                s + 1 <= r,
        ;
    }
}

/// Floor of the square root of `n`.
fn isqrt(n: u64) -> (r: u64)
    requires
        n <= 0xFFFF_FFFF,
    ensures
        r == sqrt_spec(n as nat),
        r * r <= n < (r + 1) * (r + 1),
{
    let mut r: u64 = 0;
    let mut sq: u64 = 1;
    while sq <= n
        invariant
            n <= 0xFFFF_FFFF,
            r <= 0x1_0000,
            sq == (r + 1) * (r + 1),
            r * r <= n,
        decreases 0x1_0000 - r,
    {
        proof {
            assert(r + 1 <= 0xFFFF) by (nonlinear_arith)
                requires
                    ((r + 1) * (r + 1)) as int <= 0xFFFF_FFFF as int,
                    r >= 0,
            ;
            assert((r + 2) * (r + 2) <= 0xFFFF_FFFF_FFFF) by (nonlinear_arith)
                requires
                    r + 1 <= 0xFFFF,
            ;
        }
        r = r + 1;
        sq = (r + 1) * (r + 1);
    }
    proof {
        lemma_sqrt_unique(n as nat, r as nat);
    }
    r
}

/// Denominator of the normalization of horizontal component `h` over the
/// fixed vertical component `VEL_SCALE`: the length of the un-normalized
/// vector, rounded down.
pub open spec fn norm_den(h: int) -> int {
    sqrt_spec((h * h + VEL_SCALE * VEL_SCALE) as nat) as int
}

/// Horizontal component of the normalized direction: `h * VEL_SCALE`
/// over the vector's length, rounded toward zero.
pub open spec fn norm_x(h: int) -> int {
    if h >= 0 {
        (h * VEL_SCALE) / norm_den(h)
    } else {
        -(((-h) * VEL_SCALE) / norm_den(h))
    }
}

/// Vertical component of the normalized direction.
pub open spec fn norm_y(h: int) -> int {
    (VEL_SCALE * VEL_SCALE) / norm_den(h)
}

/// Normalize the direction `(h, VEL_SCALE)` to unit length (that is, to
/// length `VEL_SCALE` in fixed-point units, up to rounding).
fn normalize(h: i64) -> (v: Vec2)
    requires
        -VEL_SCALE <= h <= VEL_SCALE,
    ensures
        v.x == norm_x(h as int),
        v.y == norm_y(h as int),
        -VEL_SCALE <= v.x <= VEL_SCALE,
        1 <= v.y <= VEL_SCALE,
        h >= 0 ==> v.x >= 0,
        h < 0 ==> v.x <= 0,
{
    let m: u64 = if h < 0 {
        (-h) as u64
    } else {
        h as u64
    };
    proof {
        assert((m * m) as int == (h as int) * (h as int) && m * m <= 10_000) by (nonlinear_arith)
            requires
                -100 <= h as int <= 100,
                m as int == if h < 0 {
                    -(h as int)
                } else {
                    h as int
                },
        ;
    }
    let n: u64 = m * m + 10_000;
    let den: u64 = isqrt(n);
    proof {
        assert(100 <= den <= 141) by (nonlinear_arith)
            requires
                (den * den) as int <= n as int,
                (n as int) < ((den + 1) * (den + 1)) as int,
                10_000 <= n as int <= 20_000,
                den >= 0,
        ;
        lemma_fundamental_div_mod((m * 100) as int, den as int);
        lemma_fundamental_div_mod(10_000, den as int);
        assert(((m * 100) as int) / (den as int) <= 100 && 10_000int / (den as int) <= 100 && 1
            <= 10_000int / (den as int)) by (nonlinear_arith)
            requires
                100 <= den <= 141,
                m <= 100,
                (m * 100) as int == den * ((m * 100) as int / (den as int)) + (m * 100) as int % (
                den as int),
                10_000 as int == den * (10_000 as int / (den as int)) + 10_000 as int % (
                den as int),
                0 <= (m * 100) as int % (den as int) < den as int,
                0 <= 10_000 as int % (den as int) < den as int,
        ;
    }
    let ux: u64 = m * 100 / den;
    let uy: u64 = 10_000 / den;
    let vx: i64 = if h < 0 {
        -(ux as i64)
    } else {
        ux as i64
    };
    Vec2 { x: vx, y: uy as i64 }
}

/// At construction a ball's direction has unit length up to fixed-point
/// rounding: for every horizontal component within one unit either way,
/// the squared length of the normalized vector lies within
/// `[(VEL_SCALE - 3)^2, (VEL_SCALE + 1)^2]`.
pub proof fn lemma_unit_length_at_construction(h: int)
    requires
        -VEL_SCALE <= h <= VEL_SCALE,
    ensures
        (VEL_SCALE - 3) * (VEL_SCALE - 3) <= norm_x(h) * norm_x(h) + norm_y(h) * norm_y(h),
        norm_x(h) * norm_x(h) + norm_y(h) * norm_y(h) <= (VEL_SCALE + 1) * (VEL_SCALE + 1),
{
    let m: int = if h >= 0 {
        h
    } else {
        -h
    };
    assert(m * m == h * h && 0 <= m * m <= 10_000) by (nonlinear_arith)
        requires
            -100 <= h <= 100,
            m == (if h >= 0 {
                h
            } else {
                -h
            }),
    ;
    let n: int = m * m + 10_000;
    lemma_sqrt_spec(n as nat);
    let den: int = norm_den(h);
    assert(100 <= den <= 141) by (nonlinear_arith)
        requires
            den * den <= n < (den + 1) * (den + 1),
            10_000 <= n <= 20_000,
            den >= 0,
    ;
    lemma_fundamental_div_mod(m * 100, den);
    lemma_fundamental_div_mod(10_000, den);
    let ux: int = (m * 100) / den;
    let uy: int = 10_000int / den;
    assert(norm_x(h) * norm_x(h) == ux * ux) by (nonlinear_arith)
        requires
            norm_x(h) == ux || norm_x(h) == -ux,
    ;
    assert(ux * ux + uy * uy <= (100 + 1) * (100 + 1) && (100 - 3) * (100 - 3) <= ux * ux + uy * uy)
        by (nonlinear_arith)
        requires
            100 <= den <= 141,
            0 <= m <= 100,
            n == m * m + 10_000,
            den * den <= n < (den + 1) * (den + 1),
            m * 100 == den * ux + (m * 100) % den,
            10_000int == den * uy + 10_000int % den,
            0 <= (m * 100) % den < den,
            0 <= 10_000int % den < den,
    ;
}

/// Horizontal position of a ball after advancing for `dt` milliseconds.
pub open spec fn ball_x_after(b: Ball, dt: int) -> int {
    b.rect.x + b.vel.x * BALL_STEP * dt
}

/// Vertical position of a ball after advancing for `dt` milliseconds.
pub open spec fn ball_y_after(b: Ball, dt: int) -> int {
    b.rect.y + b.vel.y * BALL_STEP * dt
}

/// Horizontal velocity after the boundary rules, given the position the
/// move reached: beyond the right edge it is forced to `-VEL_SCALE`,
/// else past the left edge it is forced to `+VEL_SCALE` (an overwrite,
/// not a negation), else it is kept.
pub open spec fn vel_x_after(x: int, vx: int, screen_w: int) -> int {
    if x > screen_w - BALL_SIZE {
        -VEL_SCALE as int
    } else if x < 0 {
        VEL_SCALE as int
    } else {
        vx
    }
}

/// Vertical velocity after the boundary rules: past the top edge it is
/// forced downward to `+VEL_SCALE`; there is no bottom-edge rule.
pub open spec fn vel_y_after(y: int, vy: int) -> int {
    if y < 0 {
        VEL_SCALE as int
    } else {
        vy
    }
}

/// A ball: its square collision bound, its fixed-point direction vector,
/// and its colour.
#[derive(Clone, Copy, PartialEq, Eq, Structural, Debug)]
pub struct Ball {
    pub rect: Rect,
    pub vel: Vec2,
    pub color: Color,
}

impl Ball {
    /// The bound keeps the fixed ball size and the direction stays within
    /// one fixed-point unit on each axis.
    pub open spec fn wf(self) -> bool {
        self.rect.w == BALL_SIZE && self.rect.h == BALL_SIZE && -VEL_SCALE <= self.vel.x
            <= VEL_SCALE && -VEL_SCALE <= self.vel.y <= VEL_SCALE
    }

    /// A ball at the given spawn point whose direction is the
    /// normalization of the given horizontal component over the fixed
    /// downward vertical one.
    pub fn with_direction(pos: Vec2, color: Color, h: i64) -> (b: Ball)
        requires
            -VEL_SCALE <= h <= VEL_SCALE,
            -MAX_COORD <= pos.x <= MAX_COORD,
            -MAX_COORD <= pos.y <= MAX_COORD,
        ensures
            b.wf(),
            b.rect == (Rect { x: pos.x, y: pos.y, w: BALL_SIZE, h: BALL_SIZE }),
            b.color == color,
            b.vel.x == norm_x(h as int),
            b.vel.y == norm_y(h as int),
            b.vel.y >= 1,
    {
        Ball {
            rect: Rect::new(pos.x, pos.y, BALL_SIZE, BALL_SIZE),
            vel: normalize(h),
            color,
        }
    }

    /// A ball at the given spawn point with a randomized direction: the
    /// horizontal component is drawn uniformly from one unit either way,
    /// the vertical one is fixed downward, and the pair is normalized.
    pub fn new(pos: Vec2, color: Color) -> (b: Ball)
        requires
            -MAX_COORD <= pos.x <= MAX_COORD,
            -MAX_COORD <= pos.y <= MAX_COORD,
        ensures
            b.wf(),
            b.rect == (Rect { x: pos.x, y: pos.y, w: BALL_SIZE, h: BALL_SIZE }),
            b.color == color,
            b.vel.y >= 1,
            exists|h: int|
                -VEL_SCALE <= h <= VEL_SCALE && b.vel.x == norm_x(h) && b.vel.y == norm_y(h),
    {
        let h: i64 = gen_range_i64(-VEL_SCALE, VEL_SCALE + 1);
        let b = Self::with_direction(pos, color, h);
        proof {
            assert(-VEL_SCALE <= h as int <= VEL_SCALE && b.vel.x == norm_x(h as int) && b.vel.y
                == norm_y(h as int));
        }
        b
    }

    /// One update step: advance the position by the direction times speed
    /// over `dt` milliseconds, then apply the boundary rules to the
    /// velocity. Left edge forces the horizontal velocity to one unit
    /// rightward, right edge to one unit leftward, top edge forces the
    /// vertical velocity to one unit downward; below the top edge the
    /// vertical velocity is untouched, so there is no bottom-edge rule.
    pub fn update(&mut self, dt: u32, screen_w: i64)
        requires
            old(self).wf(),
            dt <= MAX_DT,
            0 <= screen_w <= MAX_COORD,
            -MAX_COORD <= old(self).rect.x <= MAX_COORD,
            -MAX_COORD <= old(self).rect.y <= MAX_COORD,
        ensures
            final(self).wf(),
            final(self).rect.x == ball_x_after(*old(self), dt as int),
            final(self).rect.y == ball_y_after(*old(self), dt as int),
            final(self).rect.w == old(self).rect.w,
            final(self).rect.h == old(self).rect.h,
            final(self).color == old(self).color,
            final(self).vel.x == vel_x_after(
                final(self).rect.x as int,
                old(self).vel.x as int,
                screen_w as int,
            ),
            final(self).vel.y == vel_y_after(final(self).rect.y as int, old(self).vel.y as int),
            final(self).rect.x < 0 && final(self).rect.x <= screen_w - BALL_SIZE ==> final(self).vel.x
                == VEL_SCALE,
            final(self).rect.x > screen_w - BALL_SIZE ==> final(self).vel.x == -VEL_SCALE,
            final(self).rect.y < 0 ==> final(self).vel.y == VEL_SCALE,
            final(self).rect.y >= 0 ==> final(self).vel.y == old(self).vel.y,
    {
        let step_x: i64 = self.vel.x * BALL_STEP;
        let step_y: i64 = self.vel.y * BALL_STEP;
        proof {
            assert(-400_000_000 <= (step_x as int) * (dt as int) <= 400_000_000 && -400_000_000 <= (
            step_y as int) * (dt as int) <= 400_000_000) by (nonlinear_arith)
                requires
                    -400 <= step_x as int <= 400,
                    -400 <= step_y as int <= 400,
                    0 <= dt as int <= 1_000_000,
            ;
        }
        self.rect.x = self.rect.x + step_x * (dt as i64);
        self.rect.y = self.rect.y + step_y * (dt as i64);

        if self.rect.x < 0 {
            self.vel.x = VEL_SCALE;
        }
        if self.rect.x > screen_w - self.rect.w {
            self.vel.x = -VEL_SCALE;
        }
        if self.rect.y < 0 {
            self.vel.y = VEL_SCALE;
        }
    }

    /// What this ball asks the renderer to draw.
    pub open spec fn draw_spec(self) -> DrawCmd {
        DrawCmd {
            x: self.rect.x,
            y: self.rect.y,
            w: self.rect.w,
            h: self.rect.h,
            color: self.color,
        }
    }

    /// The ball's draw command: a pure function of the ball's state, so
    /// repeated calls on an unchanged ball render identically.
    pub fn draw(&self) -> (cmd: DrawCmd)
        ensures
            cmd == self.draw_spec(),
    {
        DrawCmd {
            x: self.rect.x,
            y: self.rect.y,
            w: self.rect.w,
            h: self.rect.h,
            color: self.color,
        }
    }
}

} // verus!
