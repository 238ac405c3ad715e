use breakout::game::{over_button, Effect, Game, InputEvent, Scenes, RESOURCE_COUNT, START_LIVES};

const BUTTON_W: u32 = 100;
const BUTTON_H: u32 = 30;

fn loaded_game() -> Game {
    let mut g = Game::new();
    assert!(g.on_assets_load(RESOURCE_COUNT, BUTTON_W, BUTTON_H));
    g
}

fn playing_game() -> Game {
    let mut g = loaded_game();
    let effects = g.on_click(160, 300);
    assert_eq!(effects, vec![Effect::InitLevel(0)]);
    g
}

#[test]
fn new_game_is_on_menu() {
    let g = Game::new();
    assert_eq!(g.lives, START_LIVES);
    assert_eq!(g.lives, 3);
    assert_eq!(g.level_number, 0);
    assert_eq!(g.scenes, Scenes::Menu);
    assert!(g.stage.is_none());
    assert_eq!(g.score(), 0);
}

#[test]
fn stage_built_only_when_all_assets_loaded() {
    let mut g = Game::new();
    for n in 1..RESOURCE_COUNT {
        assert!(!g.on_assets_load(n, BUTTON_W, BUTTON_H));
        assert!(g.stage.is_none());
    }
    assert!(g.on_assets_load(7, BUTTON_W, BUTTON_H));
    let stage = g.stage.as_ref().unwrap();
    assert_eq!(stage.button_width, BUTTON_W);
    assert_eq!(stage.img_button_color(), [255, 255, 255, 200]);
    assert!(stage.level.bricks.is_empty());
}

#[test]
fn reloading_assets_keeps_score() {
    let mut g = loaded_game();
    g.stage.as_mut().unwrap().level.total_score = 700;
    assert!(g.on_assets_load(RESOURCE_COUNT, 80, 20));
    assert_eq!(g.score(), 700);
    assert_eq!(g.stage.as_ref().unwrap().button_width, 80);
}

#[test]
fn button_hit_test_is_exact() {
    // width 100: spans x in (110, 210), y in (290, 320)
    assert!(over_button(111, 291, 100, 30));
    assert!(!over_button(110, 291, 100, 30));
    assert!(over_button(209, 319, 100, 30));
    assert!(!over_button(210, 300, 100, 30));
    assert!(!over_button(150, 290, 100, 30));
    assert!(!over_button(150, 320, 100, 30));
    // odd width 101: left edge at 109.5
    assert!(over_button(110, 300, 101, 30));
    assert!(!over_button(109, 300, 101, 30));
    assert!(over_button(210, 300, 101, 30));
    assert!(!over_button(211, 300, 101, 30));
    assert!(!over_button(160, 300, 0, 30));
    assert!(!over_button(i32::MIN, i32::MAX, u32::MAX, u32::MAX));
}

#[test]
fn events_before_loading_are_ignored() {
    let mut g = Game::new();
    assert!(g.event(InputEvent::Click(160, 300)).is_empty());
    assert!(g.event(InputEvent::MouseMove(160, 300)).is_empty());
    assert_eq!(g.scenes, Scenes::Menu);
}

#[test]
fn click_on_button_starts_play() {
    let mut g = loaded_game();
    let effects = g.event(InputEvent::Click(160, 300));
    assert_eq!(effects, vec![Effect::InitLevel(0)]);
    assert_eq!(g.scenes, Scenes::Play);
    assert_eq!(g.level_number, 0);
    assert_eq!(g.lives, 3);
}

#[test]
fn click_elsewhere_does_nothing() {
    let mut g = loaded_game();
    assert!(g.event(InputEvent::Click(10, 10)).is_empty());
    assert_eq!(g.scenes, Scenes::Menu);
    assert!(g.event(InputEvent::Other).is_empty());
}

#[test]
fn hover_lights_button_once() {
    let mut g = loaded_game();
    assert_eq!(g.event(InputEvent::MouseMove(160, 300)), vec![Effect::ButtonSound]);
    assert_eq!(g.stage.as_ref().unwrap().button_alpha, 255);
    assert!(g.event(InputEvent::MouseMove(161, 301)).is_empty());
    assert!(g.event(InputEvent::MouseMove(0, 0)).is_empty());
    assert_eq!(g.stage.as_ref().unwrap().button_alpha, 200);
    assert_eq!(g.event(InputEvent::MouseMove(160, 300)), vec![Effect::ButtonSound]);
}

#[test]
fn mouse_in_play_moves_paddle() {
    let mut g = playing_game();
    assert_eq!(g.event(InputEvent::MouseMove(100, 5)), vec![Effect::MovePaddle(100, 24)]);
    assert_eq!(g.event(InputEvent::MouseMove(1000, 5)), vec![Effect::MovePaddle(296, 24)]);
    assert_eq!(g.stage.as_ref().unwrap().level.paddle.region.x, 296);
    assert_eq!(g.stage.as_ref().unwrap().button_alpha, 200);
}

#[test]
fn losing_all_balls_costs_a_life() {
    let mut g = playing_game();
    let mut level = breakout::level::Level::new(0);
    let plan = level.brick_plan(0).unwrap();
    level.place_bricks(&plan, &(0..plan.len()).collect());
    g.stage.as_mut().unwrap().level = level;
    assert_eq!(g.update(true), vec![Effect::StepWorld]);
    assert_eq!(g.lives, 3);
    assert_eq!(g.update(false), vec![Effect::ResetLevel, Effect::StepWorld]);
    assert_eq!(g.lives, 2);
    assert_eq!(g.update(false), vec![Effect::ResetLevel, Effect::StepWorld]);
    assert_eq!(g.update(false), vec![Effect::ResetLevel, Effect::StepWorld]);
    assert_eq!(g.lives, 0);
    assert_eq!(g.scenes, Scenes::Play);
    assert_eq!(g.update(false), vec![Effect::GameOver, Effect::StepWorld]);
    assert_eq!(g.lives, -1);
    assert_eq!(g.scenes, Scenes::GameOver);
    assert!(g.update(false).is_empty());
    assert_eq!(g.lives, -1);
}

#[test]
fn restart_after_game_over() {
    let mut g = playing_game();
    g.lives = 0;
    g.level_number = 2;
    g.stage.as_mut().unwrap().level.total_score = 1200;
    assert_eq!(g.reduce_life(), vec![Effect::GameOver]);
    assert_eq!(g.scenes, Scenes::GameOver);
    assert_eq!(g.score(), 1200);
    assert_eq!(g.event(InputEvent::Click(160, 300)), vec![Effect::InitLevel(0)]);
    assert_eq!(g.scenes, Scenes::Play);
    assert_eq!(g.lives, 3);
    assert_eq!(g.score(), 0);
    assert_eq!(g.level_number, 0);
}

#[test]
fn click_during_play_restarts_first_map_keeping_lives_and_score() {
    let mut g = playing_game();
    g.lives = 1;
    g.level_number = 2;
    g.stage.as_mut().unwrap().level.total_score = 300;
    assert_eq!(g.event(InputEvent::Click(160, 300)), vec![Effect::InitLevel(0)]);
    assert_eq!(g.level_number, 0);
    assert_eq!(g.lives, 1);
    assert_eq!(g.score(), 300);
}

#[test]
fn cleared_maps_lead_to_win() {
    let mut g = playing_game();
    assert_eq!(g.update(true), vec![Effect::InitLevel(1), Effect::StepWorld]);
    assert_eq!(g.level_number, 1);
    assert_eq!(g.next_level(), vec![Effect::InitLevel(2)]);
    assert_eq!(g.next_level(), vec![Effect::InitLevel(3)]);
    assert_eq!(g.level_number, 3);
    assert_eq!(g.scenes, Scenes::Play);
    assert_eq!(g.update(true), vec![Effect::StepWorld]);
    assert_eq!(g.scenes, Scenes::Win);
    assert_eq!(g.level_number, 3);
    assert!(g.update(true).is_empty());
    assert!(g.event(InputEvent::MouseMove(160, 300)).is_empty());
}

#[test]
fn last_life_lost_and_map_cleared_in_one_frame() {
    let mut g = playing_game();
    g.lives = 0;
    g.level_number = 3;
    assert_eq!(g.update(false), vec![Effect::GameOver, Effect::StepWorld]);
    assert_eq!(g.lives, -1);
    assert_eq!(g.scenes, Scenes::Win);
}

#[test]
fn update_outside_play_does_nothing() {
    let mut g = Game::new();
    assert!(g.update(false).is_empty());
    let mut g = loaded_game();
    assert!(g.update(false).is_empty());
    assert_eq!(g.lives, 3);
}
