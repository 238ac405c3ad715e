use breakout::paddle::Paddle;
use breakout::prelude::{ScreenRect, SpriteAction, VRect, WINDOW_HEIGHT, WINDOW_WIDTH};

#[test]
fn vrect_edges_and_sizes() {
    let r = VRect::new(54, 331, 16, 8);
    assert_eq!(r.l(), 38);
    assert_eq!(r.r(), 70);
    assert_eq!(r.t(), 339);
    assert_eq!(r._b(), 323);
    assert_eq!(r.w(), 32);
    assert_eq!(r.h(), 16);
}

#[test]
fn vrect_move_to_keeps_size() {
    let mut r = VRect::new(0, 0, 5, 7);
    r.move_to(-10, 20);
    assert_eq!(r, VRect::new(-10, 20, 5, 7));
}

#[test]
fn vrect_screen_rect_flips_y() {
    let r = VRect::new(160, 40, 24, 8);
    assert_eq!(r.screen_rect(), ScreenRect { left: 136, top: 368, width: 48, height: 16 });
    let full = VRect::new(WINDOW_WIDTH / 2, WINDOW_HEIGHT / 2, WINDOW_WIDTH / 2, WINDOW_HEIGHT / 2);
    assert_eq!(full.screen_rect(), ScreenRect { left: 0, top: 0, width: 320, height: 416 });
}

#[test]
fn vrect_edges_do_not_overflow() {
    let r = VRect::new(i32::MAX, i32::MIN, i32::MAX, i32::MAX);
    assert_eq!(r.r(), 2 * (i32::MAX as i64));
    assert_eq!(r._b(), i32::MIN as i64 - i32::MAX as i64);
}

fn game_paddle() -> Paddle {
    Paddle::new(VRect::new(160, 40, 24, 8), VRect::new(160, 208, 160, 208))
}

#[test]
fn paddle_follows_pointer_inside_bounds() {
    let mut p = game_paddle();
    p.set_position(100);
    assert_eq!(p.region, VRect::new(100, 40, 24, 8));
    assert_eq!(p.collider_position(), (100, 24));
}

#[test]
fn paddle_clamped_at_left_edge() {
    let mut p = game_paddle();
    p.set_position(5);
    assert_eq!(p.region.x, 24);
    assert_eq!(p.region.l(), 0);
    p.set_position(-1000);
    assert_eq!(p.region.x, 24);
}

#[test]
fn paddle_clamped_at_right_edge() {
    let mut p = game_paddle();
    p.set_position(310);
    assert_eq!(p.region.x, 296);
    assert_eq!(p.region.r(), 320);
}

#[test]
fn paddle_exact_limits_taken_as_they_are() {
    let mut p = game_paddle();
    p.set_position(24);
    assert_eq!(p.region.x, 24);
    p.set_position(296);
    assert_eq!(p.region.x, 296);
}

#[test]
fn paddle_wider_than_bounds_ends_at_right_limit() {
    let mut p = Paddle::new(VRect::new(0, 0, 50, 5), VRect::new(0, 0, 10, 10));
    p.set_position(-100);
    assert_eq!(p.region.x, -40);
    p.set_position(100);
    assert_eq!(p.region.x, -40);
}

#[test]
fn paddle_second_move_to_same_place_changes_nothing() {
    let mut p = game_paddle();
    p.set_position(400);
    let once = p;
    p.set_position(400);
    assert_eq!(p, once);
}

#[test]
fn paddle_update_asks_nothing() {
    assert_eq!(game_paddle().update(), SpriteAction::Nothing);
}
