use breakout::ball::Ball;
use breakout::game::GameState;
use breakout::game::Status;
use breakout::game::make_blocks;
use breakout::geom::Rect;
use breakout::geom::Vec2;
use breakout::player::Player;
use breakout::Color;

fn white() -> Color {
    Color::new(255, 255, 255, 255)
}

fn red() -> Color {
    Color::new(230, 41, 55, 255)
}

// Playfield of 800 by 600 screen units, in milliunits.
const SCREEN_W: i64 = 800_000;
const SCREEN_H: i64 = 600_000;

#[test]
fn player_new_centers_near_bottom() {
    let p = Player::new(SCREEN_W, SCREEN_H, white());
    // Centered: (800 - 150) / 2 units.
    assert_eq!(p.rect.x, 325_000);
    assert_eq!(p.rect.y, 500_000);
    assert_eq!(p.rect.w, 150_000);
    assert_eq!(p.rect.h, 40_000);
    assert_eq!(p.color, white());
}

#[test]
fn player_moves_right_by_speed_times_dt() {
    let mut p = Player::new(SCREEN_W, SCREEN_H, white());
    // 100 ms at 700 units/s moves 70 units.
    p.update(100, false, true, SCREEN_W);
    assert_eq!(p.rect.x, 395_000);
    p.update(100, true, false, SCREEN_W);
    assert_eq!(p.rect.x, 325_000);
}

#[test]
fn player_stays_within_playfield() {
    let mut p = Player::new(SCREEN_W, SCREEN_H, white());
    for _ in 0..100 {
        p.update(1_000, true, false, SCREEN_W);
        assert!(p.rect.x >= 0 && p.rect.x <= SCREEN_W - 150_000);
    }
    assert_eq!(p.rect.x, 0);
    for _ in 0..100 {
        p.update(1_000, false, true, SCREEN_W);
        assert!(p.rect.x >= 0 && p.rect.x <= SCREEN_W - 150_000);
    }
    assert_eq!(p.rect.x, SCREEN_W - 150_000);
}

#[test]
fn player_both_inputs_cancel() {
    let mut p = Player::new(SCREEN_W, SCREEN_H, white());
    p.update(250, true, true, SCREEN_W);
    assert_eq!(p.rect.x, 325_000);
    p.update(250, false, false, SCREEN_W);
    assert_eq!(p.rect.x, 325_000);
}

#[test]
fn player_zero_dt_is_no_move() {
    let mut p = Player::new(SCREEN_W, SCREEN_H, white());
    p.update(0, false, true, SCREEN_W);
    assert_eq!(p.rect.x, 325_000);
}

#[test]
fn ball_direction_normalized_exact_values() {
    let pos = Vec2::new(100_000, 100_000);
    // Horizontal 0: straight down, exactly unit length.
    let b = Ball::with_direction(pos, white(), 0);
    assert_eq!((b.vel.x, b.vel.y), (0, 100));
    // Horizontal one full unit: the diagonal, 70/70 in fixed point.
    let b = Ball::with_direction(pos, white(), 100);
    assert_eq!((b.vel.x, b.vel.y), (70, 70));
    let b = Ball::with_direction(pos, white(), -100);
    assert_eq!((b.vel.x, b.vel.y), (-70, 70));
    // Half a unit leftward.
    let b = Ball::with_direction(pos, white(), -50);
    assert_eq!((b.vel.x, b.vel.y), (-45, 90));
}

#[test]
fn ball_direction_has_unit_length_for_all_horizontals() {
    let pos = Vec2::new(100_000, 100_000);
    for h in -100..=100 {
        let b = Ball::with_direction(pos, white(), h);
        let sq = b.vel.x * b.vel.x + b.vel.y * b.vel.y;
        assert!(sq >= 97 * 97, "h={h} sq={sq}");
        assert!(sq <= 101 * 101, "h={h} sq={sq}");
        assert!(b.vel.y >= 1);
    }
}

#[test]
fn ball_new_randomized_direction_in_range() {
    let pos = Vec2::new(100_000, 100_000);
    for _ in 0..50 {
        let b = Ball::new(pos, white());
        assert_eq!(b.rect.x, 100_000);
        assert_eq!(b.rect.y, 100_000);
        assert_eq!(b.rect.w, 50_000);
        assert_eq!(b.rect.h, 50_000);
        assert!(b.vel.x >= -100 && b.vel.x <= 100);
        assert!(b.vel.y >= 1 && b.vel.y <= 100);
        let sq = b.vel.x * b.vel.x + b.vel.y * b.vel.y;
        assert!(sq >= 97 * 97 && sq <= 101 * 101);
    }
}

#[test]
fn ball_moves_by_velocity_speed_and_dt() {
    let mut b = Ball::with_direction(Vec2::new(100_000, 100_000), white(), 0);
    // Direction (0, 100), speed 400 units/s, 100 ms: 40 units down.
    b.update(100, SCREEN_W);
    assert_eq!(b.rect.x, 100_000);
    assert_eq!(b.rect.y, 140_000);
    assert_eq!((b.vel.x, b.vel.y), (0, 100));
}

#[test]
fn ball_left_wall_forces_velocity_right() {
    // A ball resting at x = -5 units keeps the rule applied to it.
    let mut b = Ball::with_direction(Vec2::new(-5_000, 300_000), white(), -100);
    b.update(0, SCREEN_W);
    assert_eq!(b.vel.x, 100);
    // The velocity is overwritten to a full unit, not negated.
    let mut b = Ball::with_direction(Vec2::new(-5_000, 300_000), white(), -50);
    b.update(0, SCREEN_W);
    assert_eq!(b.vel.x, 100);
    assert_eq!(b.vel.y, 90);
}

#[test]
fn ball_right_wall_forces_velocity_left() {
    let mut b = Ball::with_direction(Vec2::new(SCREEN_W - 45_000, 300_000), white(), 100);
    b.update(0, SCREEN_W);
    assert_eq!(b.vel.x, -100);
}

#[test]
fn ball_top_wall_forces_velocity_down() {
    let mut b = Ball::with_direction(Vec2::new(300_000, 300_000), white(), 0);
    b.vel.y = -100;
    b.rect.y = -1_000;
    b.update(0, SCREEN_W);
    assert_eq!(b.vel.y, 100);
}

#[test]
fn ball_has_no_bottom_wall_rule() {
    let mut b = Ball::with_direction(Vec2::new(300_000, SCREEN_H + 50_000), white(), 0);
    b.update(0, SCREEN_W);
    // Below the playfield nothing touches the vertical velocity.
    assert_eq!(b.vel.y, 100);
}

#[test]
fn grid_four_by_four_tiles_and_fits() {
    let blocks = make_blocks(SCREEN_W, 4, 4, red());
    assert_eq!(blocks.len(), 16);
    // Strides are 160 by 50 units; the board is centered: (800 - 640) / 2.
    let start_x = 80_000;
    for (i, b) in blocks.iter().enumerate() {
        let col = (i % 4) as i64;
        let row = (i / 4) as i64;
        assert_eq!(b.rect.x, start_x + col * 160_000);
        assert_eq!(b.rect.y, 50_000 + row * 50_000);
        assert_eq!(b.rect.w, 150_000);
        assert_eq!(b.rect.h, 40_000);
        assert!(b.alive);
        // Fits the playfield horizontally.
        assert!(b.rect.x >= 0 && b.rect.x + b.rect.w <= SCREEN_W);
    }
    // No two blocks overlap.
    for i in 0..16 {
        for j in 0..16 {
            if i != j {
                let a = &blocks[i].rect;
                let b = &blocks[j].rect;
                let disjoint = a.x + a.w <= b.x
                    || b.x + b.w <= a.x
                    || a.y + a.h <= b.y
                    || b.y + b.h <= a.y;
                assert!(disjoint, "blocks {i} and {j} overlap");
            }
        }
    }
}

#[test]
fn grid_exactly_minimal_playfield() {
    // 4 * (150 + 10) = 640 units: the narrowest playfield the board fits.
    let blocks = make_blocks(640_000, 4, 4, red());
    assert_eq!(blocks[0].rect.x, 0);
    assert_eq!(blocks[3].rect.x + blocks[3].rect.w, 630_000);
}

#[test]
fn draw_is_idempotent() {
    let g = GameState::new(SCREEN_W, SCREEN_H, white(), red(), white());
    let a = g.draw();
    let b = g.draw();
    let c = g.draw();
    assert_eq!(a, b);
    assert_eq!(b, c);
    // Paddle, 16 live blocks, one ball.
    assert_eq!(a.len(), 18);
    assert_eq!(a[0].x, g.player.rect.x);
    assert_eq!(a[0].color, white());
    assert_eq!(a[1].color, red());
}

#[test]
fn draw_skips_dead_blocks() {
    let mut g = GameState::new(SCREEN_W, SCREEN_H, white(), red(), white());
    g.blocks[3].alive = false;
    g.blocks[7].alive = false;
    let cmds = g.draw();
    assert_eq!(cmds.len(), 16);
}

#[test]
fn game_new_is_playing() {
    let g = GameState::new(SCREEN_W, SCREEN_H, white(), red(), white());
    assert_eq!(g.status, Status::Playing);
    assert_eq!(g.blocks.len(), 16);
    assert_eq!(g.balls.len(), 1);
    assert_eq!(g.balls[0].rect.x, 400_000);
    assert_eq!(g.balls[0].rect.y, 300_000);
    assert!(g.balls_in_bounds());
}

#[test]
fn game_update_moves_paddle_and_ball() {
    let mut g = GameState::new(SCREEN_W, SCREEN_H, white(), red(), white());
    g.balls[0] = Ball::with_direction(Vec2::new(400_000, 300_000), white(), 0);
    g.update(100, false, true, SCREEN_W, SCREEN_H);
    assert_eq!(g.player.rect.x, 395_000);
    assert_eq!(g.balls[0].rect.y, 340_000);
    assert_eq!(g.status, Status::Playing);
}

#[test]
fn game_ball_strikes_block() {
    let mut g = GameState::new(SCREEN_W, SCREEN_H, white(), red(), white());
    // A ball dropped straight onto block 0's position.
    let target = g.blocks[0].rect;
    g.balls[0] = Ball::with_direction(Vec2::new(target.x, target.y), white(), 0);
    g.balls[0].vel.y = -100;
    g.update(0, false, false, SCREEN_W, SCREEN_H);
    assert!(!g.blocks[0].alive, "struck block must be dead");
    assert_eq!(g.balls[0].vel.y, 100, "vertical velocity reflects");
    assert_eq!(g.status, Status::Playing);
}

#[test]
fn game_paddle_bounces_ball() {
    let mut g = GameState::new(SCREEN_W, SCREEN_H, white(), red(), white());
    let p = g.player.rect;
    g.balls[0] = Ball::with_direction(Vec2::new(p.x, p.y - 10_000), white(), 0);
    assert_eq!(g.balls[0].vel.y, 100);
    g.update(0, false, false, SCREEN_W, SCREEN_H);
    assert_eq!(g.balls[0].vel.y, -100, "downward ball reflects off the paddle");
}

#[test]
fn game_ball_below_bottom_loses() {
    let mut g = GameState::new(SCREEN_W, SCREEN_H, white(), red(), white());
    g.balls[0] = Ball::with_direction(Vec2::new(400_000, SCREEN_H + 1_000), white(), 0);
    g.update(0, false, false, SCREEN_W, SCREEN_H);
    assert_eq!(g.status, Status::Lost);
    // Once lost, nothing changes any more.
    let y = g.balls[0].rect.y;
    g.update(500, true, false, SCREEN_W, SCREEN_H);
    assert_eq!(g.balls[0].rect.y, y);
    assert_eq!(g.status, Status::Lost);
}

#[test]
fn game_clearing_all_blocks_wins() {
    let mut g = GameState::new(SCREEN_W, SCREEN_H, white(), red(), white());
    for b in g.blocks.iter_mut() {
        b.alive = false;
    }
    g.balls[0] = Ball::with_direction(Vec2::new(400_000, 300_000), white(), 0);
    g.update(0, false, false, SCREEN_W, SCREEN_H);
    assert_eq!(g.status, Status::Won);
}

#[test]
fn rect_overlap_test() {
    let a = Rect::new(0, 0, 10_000, 10_000);
    let b = Rect::new(5_000, 5_000, 10_000, 10_000);
    let c = Rect::new(10_000, 0, 10_000, 10_000);
    assert!(a.overlaps(&b));
    assert!(b.overlaps(&a));
    // Touching edges do not overlap.
    assert!(!a.overlaps(&c));
}
