//! The game's scenes and rules: the menu and its start button, play with a
//! number of lives, moving on through the maps, losing and winning.
use vstd::prelude::*;
use crate::brick::Brick;
use crate::layout::{lemma_maps_fit, spec_map_levels};
use crate::level::{initial_paddle, Level};
use crate::paddle::{clamp_x, Paddle};
use crate::prelude::{VRect, WINDOW_WIDTH};

verus! {

/// How many asset files the game loads before it can be played.
pub const RESOURCE_COUNT: usize = 7;

/// The window row (counted down from the top) of the start button's top edge.
pub const BUTTON_Y: i32 = 290;

/// Lives a new game starts with.
pub const START_LIVES: i32 = 3;

/// The button's opacity while the pointer is away from it.
pub const BUTTON_ALPHA_IDLE: u8 = 200;

/// The button's opacity while the pointer is over it.
pub const BUTTON_ALPHA_HOVER: u8 = 255;

/// The scene the game shows.
#[derive(Clone, Copy, Debug, PartialEq, Eq, Structural)]
pub enum Scenes {
    Menu,
    Play,
    GameOver,
    Win,
}

/// What the rules ask of the world outside them, to be done in order.
#[derive(Clone, Copy, Debug, PartialEq, Eq, Structural)]
pub enum Effect {
    /// Restart the level in play: start the countdown, take every ball out
    /// of the world and put in one new ball.
    ResetLevel,
    /// Lay out the bricks of this map in the world, then restart the level.
    InitLevel(usize),
    /// Put the paddle's collider at this position.
    MovePaddle(i64, i64),
    /// Play the button sound.
    ButtonSound,
    /// Advance the physics world by one step.
    StepWorld,
    /// The game has just been lost: log that it is over.
    GameOver,
}

/// A pointer event, in window pixels: x to the right, y down from the top.
#[derive(Clone, Copy, Debug, PartialEq, Eq, Structural)]
pub enum InputEvent {
    MouseMove(i32, i32),
    Click(i32, i32),
    Other,
}

/// What exists once the assets are loaded: the start button's size and
/// opacity, and the level.
pub struct Stage {
    pub button_width: u32,
    pub button_height: u32,
    pub button_alpha: u8,
    pub level: Level,
}

/// The game's state.
pub struct Game {
    pub lives: i32,
    pub level_number: usize,
    pub stage: Option<Stage>,
    pub scenes: Scenes,
}

/// The pointer at `(x, y)`, in window pixels with y pointing down, is over
/// the start button, `width` by `height`, centred across the window with its
/// top edge on row `BUTTON_Y`; the horizontal test is doubled so that it
/// stays exact for an odd width.
pub open spec fn spec_over_button(x: int, y: int, width: int, height: int) -> bool {
    &&& 2 * x > WINDOW_WIDTH - width
    &&& 2 * x < WINDOW_WIDTH + width
    &&& y > BUTTON_Y
    &&& y < BUTTON_Y + height
}

/// Whether the pointer at `(x, y)` is over the start button.
pub fn over_button(x: i32, y: i32, width: u32, height: u32) -> (over: bool)
    ensures
        over == spec_over_button(x as int, y as int, width as int, height as int),
{
    let x2 = 2 * (x as i64);
    let w = width as i64;
    let h = height as i64;
    x2 > WINDOW_WIDTH as i64 - w && x2 < WINDOW_WIDTH as i64 + w && y as i64 > BUTTON_Y as i64 && (y as i64)
        < BUTTON_Y as i64 + h
}

/// What a loaded stage holds that the rules read: the start button's size
/// and opacity, and the level's bricks, paddle and score.
pub struct StageView {
    pub button_width: u32,
    pub button_height: u32,
    pub button_alpha: u8,
    pub bricks: Seq<Brick>,
    pub paddle: Paddle,
    pub total_score: i32,
}

/// The game's state as the rules see it.
pub struct GameView {
    pub lives: i32,
    pub level_number: usize,
    pub scenes: Scenes,
    pub stage: Option<StageView>,
}

impl View for Stage {
    type V = StageView;

    open spec fn view(&self) -> StageView {
        StageView {
            button_width: self.button_width,
            button_height: self.button_height,
            button_alpha: self.button_alpha,
            bricks: self.level.bricks@,
            paddle: self.level.paddle,
            total_score: self.level.total_score,
        }
    }
}

impl View for Game {
    type V = GameView;

    open spec fn view(&self) -> GameView {
        GameView {
            lives: self.lives,
            level_number: self.level_number,
            scenes: self.scenes,
            stage: match self.stage {
                Some(s) => Some(s@),
                None => None,
            },
        }
    }
}

impl GameView {
    /// The map in play is one of the maps and a loaded paddle can be clamped.
    pub open spec fn wf(self) -> bool {
        &&& self.level_number < spec_map_levels().len()
        &&& self.stage matches Some(s) ==> s.paddle.wf()
    }

    /// The running score: that of the level, none before the assets load.
    pub open spec fn score(self) -> int {
        match self.stage {
            Some(s) => s.total_score as int,
            None => 0,
        }
    }
}

/// After one more asset loaded, with `loaded` distinct assets held: once all
/// are, a new stage around a new level that keeps the score, with the button
/// of the given size, not highlighted.
pub open spec fn spec_on_assets_load(g: GameView, loaded: int, width: u32, height: u32) -> (GameView, bool) {
    if loaded == RESOURCE_COUNT {
        (
            GameView {
                stage: Some(
                    StageView {
                        button_width: width,
                        button_height: height,
                        button_alpha: BUTTON_ALPHA_IDLE,
                        bricks: Seq::empty(),
                        paddle: initial_paddle(),
                        total_score: g.score() as i32,
                    },
                ),
                ..g
            },
            true,
        )
    } else {
        (g, false)
    }
}

/// After a life is lost: with lives left the level restarts, without them
/// the game is over and its end is to be logged.
pub open spec fn spec_reduce_life(g: GameView) -> (GameView, Seq<Effect>) {
    let lives = (g.lives - 1) as i32;
    if lives >= 0 {
        (GameView { lives, ..g }, seq![Effect::ResetLevel])
    } else {
        (GameView { lives, scenes: Scenes::GameOver, ..g }, seq![Effect::GameOver])
    }
}

/// After the map in play is cleared: the next map is laid out, or past the
/// last map the game is won.
pub open spec fn spec_next_level(g: GameView) -> (GameView, Seq<Effect>) {
    if g.level_number + 1 >= spec_map_levels().len() {
        (GameView { scenes: Scenes::Win, ..g }, Seq::empty())
    } else {
        let n = (g.level_number + 1) as usize;
        (GameView { level_number: n, ..g }, seq![Effect::InitLevel(n)])
    }
}

/// After a click at `(x, y)`: on the start button, in any scene, play starts
/// on the first map and the button dims; after a lost game the lives and the
/// score start afresh. Elsewhere nothing changes.
pub open spec fn spec_on_click(g: GameView, x: int, y: int) -> (GameView, Seq<Effect>) {
    let s = g.stage.unwrap();
    if spec_over_button(x, y, s.button_width as int, s.button_height as int) {
        let lost = g.scenes == Scenes::GameOver;
        (
            GameView {
                lives: if lost {
                    START_LIVES
                } else {
                    g.lives
                },
                level_number: 0,
                scenes: Scenes::Play,
                stage: Some(
                    StageView {
                        button_alpha: BUTTON_ALPHA_IDLE,
                        total_score: if lost {
                            0
                        } else {
                            s.total_score
                        },
                        ..s
                    },
                ),
            },
            seq![Effect::InitLevel(0)],
        )
    } else {
        (g, Seq::empty())
    }
}

/// The paddle after the pointer moved to `x`.
pub open spec fn paddle_moved(p: Paddle, x: int) -> Paddle {
    Paddle { region: VRect { x: clamp_x(x, p.region.x_radius as int, p.bounds) as i32, ..p.region }, ..p }
}

/// After the pointer moved to `(x, y)`: in play the paddle follows it and
/// its collider is moved; on the menu and after a lost game the start button
/// lights up, with a sound, when the pointer comes over it and dims when it
/// is elsewhere; after a won game nothing changes.
pub open spec fn spec_on_mouse_move(g: GameView, x: int, y: int) -> (GameView, Seq<Effect>) {
    let s = g.stage.unwrap();
    match g.scenes {
        Scenes::Play => {
            let p = paddle_moved(s.paddle, x);
            (
                GameView { stage: Some(StageView { paddle: p, ..s }), ..g },
                seq![
                    Effect::MovePaddle(
                        p.spec_collider_position().0 as i64,
                        p.spec_collider_position().1 as i64,
                    ),
                ],
            )
        },
        Scenes::Menu | Scenes::GameOver => {
            if spec_over_button(x, y, s.button_width as int, s.button_height as int) {
                (
                    GameView { stage: Some(StageView { button_alpha: BUTTON_ALPHA_HOVER, ..s }), ..g },
                    if s.button_alpha != BUTTON_ALPHA_HOVER {
                        seq![Effect::ButtonSound]
                    } else {
                        Seq::empty()
                    },
                )
            } else {
                (GameView { stage: Some(StageView { button_alpha: BUTTON_ALPHA_IDLE, ..s }), ..g }, Seq::empty())
            }
        },
        Scenes::Win => (g, Seq::empty()),
    }
}

/// After one frame, the level having run its own frame (`balls_remain`:
/// whether it still has a ball). In play: a life is lost if no ball remains;
/// then, if no brick is left, the game moves on to the next map; then the
/// physics world steps. Outside play, or before the assets load, nothing
/// changes.
pub open spec fn spec_update(g: GameView, balls_remain: bool) -> (GameView, Seq<Effect>) {
    if g.stage is Some && g.scenes == Scenes::Play {
        let (g1, e1) = if balls_remain {
            (g, Seq::empty())
        } else {
            spec_reduce_life(g)
        };
        let (g2, e2) = if g.stage.unwrap().bricks.len() == 0 {
            spec_next_level(g1)
        } else {
            (g1, Seq::empty())
        };
        (g2, e1 + e2 + seq![Effect::StepWorld])
    } else {
        (g, Seq::empty())
    }
}

/// After a pointer event: moves and clicks go to the rules above once the
/// assets are loaded; anything else changes nothing.
pub open spec fn spec_event(g: GameView, event: InputEvent) -> (GameView, Seq<Effect>) {
    if g.stage is None {
        (g, Seq::empty())
    } else {
        match event {
            InputEvent::MouseMove(x, y) => spec_on_mouse_move(g, x as int, y as int),
            InputEvent::Click(x, y) => spec_on_click(g, x as int, y as int),
            InputEvent::Other => (g, Seq::empty()),
        }
    }
}

/// Clicking the start button after a lost game starts a fresh game: play on
/// the first map, with the starting lives and no score.
pub proof fn lemma_restart_after_game_over(g: GameView, x: int, y: int)
    requires
        g.stage is Some,
        g.scenes == Scenes::GameOver,
        spec_over_button(x, y, g.stage.unwrap().button_width as int, g.stage.unwrap().button_height as int),
    ensures
        spec_on_click(g, x, y).0.scenes == Scenes::Play,
        spec_on_click(g, x, y).0.lives == START_LIVES,
        spec_on_click(g, x, y).0.level_number == 0,
        spec_on_click(g, x, y).0.score() == 0,
        spec_on_click(g, x, y).1 == seq![Effect::InitLevel(0)],
{
}

/// Losing a life takes exactly one, and the game is over, with a notice
/// that it ended, exactly when none is left; otherwise the level restarts.
pub proof fn lemma_game_over_when_out_of_lives(g: GameView)
    requires
        g.lives > i32::MIN,
    ensures
        spec_reduce_life(g).0.lives == g.lives - 1,
        g.lives - 1 < 0 ==> spec_reduce_life(g).0.scenes == Scenes::GameOver && spec_reduce_life(g).1 == seq![
            Effect::GameOver,
        ],
        g.lives - 1 >= 0 ==> spec_reduce_life(g).0.scenes == g.scenes && spec_reduce_life(g).1 == seq![
            Effect::ResetLevel,
        ],
{
}

/// The game is won exactly when the last map is cleared; before that,
/// clearing a map lays out the next one.
pub proof fn lemma_win_after_last_map(g: GameView)
    requires
        g.wf(),
    ensures
        g.level_number == spec_map_levels().len() - 1 ==> spec_next_level(g).0.scenes == Scenes::Win,
        g.level_number < spec_map_levels().len() - 1 ==> spec_next_level(g).0.level_number == g.level_number + 1
            && spec_next_level(g).0.scenes == g.scenes && spec_next_level(g).1 == seq![
            Effect::InitLevel((g.level_number + 1) as usize),
        ],
        spec_next_level(g).0.wf(),
{
}

/// Lives only go up when a click on the start button restarts a lost game,
/// and then to the starting lives; a frame never adds any.
pub proof fn lemma_lives_rise_only_on_restart(g: GameView, event: InputEvent, balls_remain: bool)
    requires
        g.lives > i32::MIN,
    ensures
        spec_update(g, balls_remain).0.lives <= g.lives,
        spec_event(g, event).0.lives > g.lives ==> {
            &&& g.scenes == Scenes::GameOver
            &&& event matches InputEvent::Click(x, y)
            &&& spec_event(g, event).0.lives == START_LIVES
        },
{
}

/// Neither a pointer event nor the game's own frame raises the score (only
/// bricks do); a pointer event lowers it only when a click restarts a lost
/// game, and then to nothing.
pub proof fn lemma_score_kept_by_rules(g: GameView, event: InputEvent, balls_remain: bool)
    ensures
        spec_update(g, balls_remain).0.score() == g.score(),
        spec_event(g, event).0.score() == g.score() || (g.scenes == Scenes::GameOver && spec_event(
            g,
            event,
        ).0.score() == 0),
{
}

/// In play every frame ends with one step of the physics world, and only
/// play steps it.
pub proof fn lemma_world_steps_in_play(g: GameView, balls_remain: bool)
    ensures
        g.stage is Some && g.scenes == Scenes::Play ==> {
            let effects = spec_update(g, balls_remain).1;
            effects.len() > 0 && effects.last() == Effect::StepWorld
        },
        !(g.stage is Some && g.scenes == Scenes::Play) ==> spec_update(g, balls_remain).1 == Seq::<
            Effect,
        >::empty(),
{
}

/// A click on the start button starts play on the first map whatever the
/// scene, with the button dimmed and the map laid out; the lives and the
/// score are kept unless the game was lost, and the level's bricks and
/// paddle are untouched. A click anywhere else changes nothing.
pub proof fn lemma_click_on_button_starts_play(g: GameView, x: int, y: int)
    requires
        g.stage is Some,
    ensures
        ({
            let s = g.stage.unwrap();
            let (g1, e) = spec_on_click(g, x, y);
            let over = 2 * x > WINDOW_WIDTH - s.button_width && 2 * x < WINDOW_WIDTH + s.button_width && y > BUTTON_Y
                && y < BUTTON_Y + s.button_height;
            &&& g1.stage is Some
            &&& g1.stage.unwrap().bricks == s.bricks
            &&& g1.stage.unwrap().paddle == s.paddle
            &&& over ==> {
                &&& g1.scenes == Scenes::Play
                &&& g1.level_number == 0
                &&& e == seq![Effect::InitLevel(0)]
                &&& g1.stage.unwrap().button_alpha == BUTTON_ALPHA_IDLE
                &&& g.scenes != Scenes::GameOver ==> g1.lives == g.lives && g1.score() == g.score()
                &&& g.scenes == Scenes::GameOver ==> g1.lives == 3 && g1.score() == 0
            }
            &&& !over ==> g1 == g && e.len() == 0
        }),
{
}

/// On the menu and after a lost game alike, the pointer over the start
/// button lights it, with one sound when it was not lit yet, and the pointer
/// elsewhere dims it; nothing else changes. In play the paddle follows the
/// pointer within its bounds and its collider is moved there; after a won
/// game nothing changes.
pub proof fn lemma_pointer_moves(g: GameView, x: int, y: int)
    requires
        g.stage is Some,
    ensures
        ({
            let s = g.stage.unwrap();
            let (g1, e) = spec_on_mouse_move(g, x, y);
            let s1 = g1.stage.unwrap();
            let over = 2 * x > WINDOW_WIDTH - s.button_width && 2 * x < WINDOW_WIDTH + s.button_width && y > BUTTON_Y
                && y < BUTTON_Y + s.button_height;
            &&& g1.stage is Some
            &&& g1.lives == g.lives && g1.level_number == g.level_number && g1.scenes == g.scenes
            &&& s1.bricks == s.bricks && s1.total_score == s.total_score
            &&& (g.scenes == Scenes::Menu || g.scenes == Scenes::GameOver) ==> {
                &&& s1.paddle == s.paddle
                &&& over ==> s1.button_alpha == 255 && e == if s.button_alpha != 255 {
                    seq![Effect::ButtonSound]
                } else {
                    Seq::empty()
                }
                &&& !over ==> s1.button_alpha == 200 && e.len() == 0
            }
            &&& g.scenes == Scenes::Play ==> {
                &&& s1.button_alpha == s.button_alpha
                &&& s1.paddle.bounds == s.paddle.bounds
                &&& s1.paddle.region.y == s.paddle.region.y
                &&& s1.paddle.region.x_radius == s.paddle.region.x_radius
                &&& s1.paddle.region.y_radius == s.paddle.region.y_radius
                &&& s.paddle.region.width() <= s.paddle.bounds.width() && s.paddle.wf() ==> {
                    &&& s.paddle.bounds.left() <= s1.paddle.region.left()
                    &&& s1.paddle.region.right() <= s.paddle.bounds.right()
                    &&& s.paddle.bounds.left() <= x - s.paddle.region.x_radius && x + s.paddle.region.x_radius
                        <= s.paddle.bounds.right() ==> s1.paddle.region.x == x
                }
                &&& e == seq![
                    Effect::MovePaddle(
                        s1.paddle.region.x as i64,
                        (s1.paddle.region.y - 2 * s1.paddle.region.y_radius) as i64,
                    ),
                ]
            }
            &&& g.scenes == Scenes::Win ==> g1 == g && e.len() == 0
        }),
{
    let p = g.stage.unwrap().paddle;
    if p.region.width() <= p.bounds.width() {
        crate::paddle::lemma_paddle_stays_in_bounds(x, p.region, p.bounds);
    }
}

/// Losing a life keeps the map in play and the stage as they are; the scene
/// changes only when the game is lost.
pub proof fn lemma_life_lost_keeps_map(g: GameView)
    requires
        g.lives > i32::MIN,
    ensures
        spec_reduce_life(g).0.level_number == g.level_number,
        spec_reduce_life(g).0.stage == g.stage,
        spec_reduce_life(g).0.lives == g.lives - 1,
        g.lives >= 1 ==> spec_reduce_life(g).0.scenes == g.scenes,
        g.lives < 1 ==> spec_reduce_life(g).0.scenes == Scenes::GameOver,
{
}

/// A frame in play: a life is lost exactly when no ball remains, the map
/// moves on exactly when no brick remains (to the next map, or to the won
/// scene after the last), the stage is untouched, and the world steps last.
pub proof fn lemma_play_frame(g: GameView, balls_remain: bool)
    requires
        g.wf(),
        g.stage is Some,
        g.scenes == Scenes::Play,
        g.lives > i32::MIN,
    ensures
        ({
            let (g1, e) = spec_update(g, balls_remain);
            let cleared = g.stage.unwrap().bricks.len() == 0;
            &&& g1.stage == g.stage
            &&& g1.lives == if balls_remain {
                g.lives as int
            } else {
                g.lives - 1
            }
            &&& !cleared ==> g1.level_number == g.level_number
            &&& cleared && g.level_number + 1 < 4 ==> g1.level_number == g.level_number + 1
                && e.contains(Effect::InitLevel((g.level_number + 1) as usize))
            &&& cleared && g.level_number + 1 >= 4 ==> g1.level_number == g.level_number && g1.scenes
                == Scenes::Win
            &&& !cleared && (balls_remain || g.lives >= 1) ==> g1.scenes == Scenes::Play
            &&& e.contains(Effect::ResetLevel) <==> !balls_remain && g.lives >= 1
            &&& e.len() > 0 && e.last() == Effect::StepWorld
        }),
{
    lemma_maps_fit();
    let (g1, e) = spec_update(g, balls_remain);
    let (ga, e1) = if balls_remain {
        (g, Seq::<Effect>::empty())
    } else {
        spec_reduce_life(g)
    };
    let (gb, e2) = if g.stage.unwrap().bricks.len() == 0 {
        spec_next_level(ga)
    } else {
        (ga, Seq::<Effect>::empty())
    };
    assert(e == e1 + e2 + seq![Effect::StepWorld]);
    if g.stage.unwrap().bricks.len() == 0 && g.level_number + 1 < 4 {
        assert(e[e1.len() as int] == Effect::InitLevel((g.level_number + 1) as usize));
    }
    if !balls_remain && g.lives >= 1 {
        assert(e[0] == Effect::ResetLevel);
    }
    if e.contains(Effect::ResetLevel) {
        let k = choose|k: int| 0 <= k < e.len() && e[k] == Effect::ResetLevel;
        if k >= e1.len() {
            assert(e[k] == (e2 + seq![Effect::StepWorld])[k - e1.len()]);
        }
    }
}

/// Loading builds the stage exactly once all the assets are held, and only
/// the stage changes: the score, lives, map and scene are kept.
pub proof fn lemma_assets_load(g: GameView, loaded: int, width: u32, height: u32)
    ensures
        spec_on_assets_load(g, loaded, width, height).1 == (loaded == 7),
        spec_on_assets_load(g, loaded, width, height).0.score() == g.score(),
        spec_on_assets_load(g, loaded, width, height).0.lives == g.lives,
        spec_on_assets_load(g, loaded, width, height).0.level_number == g.level_number,
        spec_on_assets_load(g, loaded, width, height).0.scenes == g.scenes,
        loaded != 7 ==> spec_on_assets_load(g, loaded, width, height).0 == g,
        loaded == 7 ==> spec_on_assets_load(g, loaded, width, height).0.stage.unwrap().bricks.len() == 0,
{
}

impl Stage {
    /// The start button's colour: white, with its opacity.
    pub fn img_button_color(&self) -> (c: [u8; 4])
        ensures
            c@ == seq![255u8, 255u8, 255u8, self.button_alpha],
    {
        [255, 255, 255, self.button_alpha]
    }
}

impl Game {
    /// The view is sound and a loaded level holds the game's maps.
    pub open spec fn wf(&self) -> bool {
        &&& self@.wf()
        &&& self.stage matches Some(s) ==> s.level.wf()
    }

    /// A game on its menu, with its starting lives, before any asset loads.
    pub fn new() -> (g: Game)
        ensures
            g.wf(),
            g@ == (GameView { lives: START_LIVES, level_number: 0, scenes: Scenes::Menu, stage: None }),
    {
        proof {
            lemma_maps_fit();
        }
        Game { lives: START_LIVES, level_number: 0, stage: None, scenes: Scenes::Menu }
    }

    /// The running score.
    pub fn score(&self) -> (s: i32)
        ensures
            s == self@.score(),
    {
        match &self.stage {
            Some(stage) => stage.level.total_score,
            None => 0,
        }
    }

    /// One more asset has loaded and `loaded` distinct assets are held; once
    /// all of them are, the stage is built anew.
    pub fn on_assets_load(&mut self, loaded: usize, button_width: u32, button_height: u32) -> (built: bool)
        requires
            old(self).wf(),
        ensures
            final(self).wf(),
            (final(self)@, built) == spec_on_assets_load(old(self)@, loaded as int, button_width, button_height),
    {
        if loaded != RESOURCE_COUNT {
            return false;
        }
        let score = self.score();
        let level = Level::new(score);
        self.stage = Some(Stage { button_width, button_height, button_alpha: BUTTON_ALPHA_IDLE, level });
        assert(self@.stage.unwrap().bricks =~= Seq::<Brick>::empty());
        true
    }

    /// A ball was lost with none left.
    pub fn reduce_life(&mut self) -> (effects: Vec<Effect>)
        requires
            old(self).wf(),
            old(self).stage is Some,
            old(self).lives > i32::MIN,
        ensures
            final(self).wf(),
            (final(self)@, effects@) == spec_reduce_life(old(self)@),
            final(self).stage == old(self).stage,
    {
        self.lives = self.lives - 1;
        if self.lives >= 0 {
            vec![Effect::ResetLevel]
        } else {
            self.gameover()
        }
    }

    /// Shows the game-over scene and asks for the end of the game to be
    /// logged.
    fn gameover(&mut self) -> (effects: Vec<Effect>)
        ensures
            effects@ == seq![Effect::GameOver],
            final(self).scenes == Scenes::GameOver,
            final(self).lives == old(self).lives,
            final(self).level_number == old(self).level_number,
            final(self).stage == old(self).stage,
    {
        self.scenes = Scenes::GameOver;
        vec![Effect::GameOver]
    }

    /// A click at `(x, y)`.
    pub fn on_click(&mut self, x: i32, y: i32) -> (effects: Vec<Effect>)
        requires
            old(self).wf(),
            old(self).stage is Some,
        ensures
            final(self).wf(),
            final(self).stage is Some,
            (final(self)@, effects@) == spec_on_click(old(self)@, x as int, y as int),
    {
        let scenes = self.scenes;
        let mut effects: Vec<Effect> = Vec::new();
        match &mut self.stage {
            Some(stage) => {
                if over_button(x, y, stage.button_width, stage.button_height) {
                    stage.button_alpha = BUTTON_ALPHA_IDLE;
                    effects.push(Effect::InitLevel(0));
                    if let Scenes::GameOver = scenes {
                        stage.level.total_score = 0;
                    }
                }
            },
            None => {},
        }
        if effects.len() > 0 {
            self.level_number = 0;
            if let Scenes::GameOver = scenes {
                self.lives = START_LIVES;
            }
            self.scenes = Scenes::Play;
        }
        proof {
            lemma_maps_fit();
        }
        effects
    }

    /// The pointer moved to `(x, y)`.
    pub fn on_mouse_move(&mut self, x: i32, y: i32) -> (effects: Vec<Effect>)
        requires
            old(self).wf(),
            old(self).stage is Some,
        ensures
            final(self).wf(),
            final(self).stage is Some,
            (final(self)@, effects@) == spec_on_mouse_move(old(self)@, x as int, y as int),
    {
        let mut effects: Vec<Effect> = Vec::new();
        match &mut self.stage {
            Some(stage) => {
                match self.scenes {
                    Scenes::Play => {
                        stage.level.on_mouse_move(x, y);
                        let (px, py) = stage.level.paddle.collider_position();
                        effects.push(Effect::MovePaddle(px, py));
                    },
                    Scenes::Menu | Scenes::GameOver => {
                        if over_button(x, y, stage.button_width, stage.button_height) {
                            if stage.button_alpha != BUTTON_ALPHA_HOVER {
                                stage.button_alpha = BUTTON_ALPHA_HOVER;
                                effects.push(Effect::ButtonSound);
                            }
                        } else {
                            stage.button_alpha = BUTTON_ALPHA_IDLE;
                        }
                    },
                    Scenes::Win => {},
                }
            },
            None => {},
        }
        effects
    }

    /// The map in play is cleared.
    pub fn next_level(&mut self) -> (effects: Vec<Effect>)
        requires
            old(self).wf(),
            old(self).stage is Some,
        ensures
            final(self).wf(),
            (final(self)@, effects@) == spec_next_level(old(self)@),
            final(self).stage == old(self).stage,
    {
        let count = match &self.stage {
            Some(stage) => stage.level.level_count(),
            None => 0,
        };
        if self.level_number + 1 >= count {
            self.scenes = Scenes::Win;
            return Vec::new();
        }
        self.level_number = self.level_number + 1;
        vec![Effect::InitLevel(self.level_number)]
    }

    /// One frame of the game, the level having run its own frame and
    /// reported in `balls_remain` whether it still has a ball.
    pub fn update(&mut self, balls_remain: bool) -> (effects: Vec<Effect>)
        requires
            old(self).wf(),
            old(self).stage is Some && old(self).scenes == Scenes::Play && !balls_remain ==> old(self).lives
                > i32::MIN,
        ensures
            final(self).wf(),
            (final(self)@, effects@) == spec_update(old(self)@, balls_remain),
            final(self).stage == old(self).stage,
    {
        let no_bricks = match &self.stage {
            Some(stage) => stage.level.bricks.len() == 0,
            None => {
                return Vec::new();
            },
        };
        match self.scenes {
            Scenes::Play => {
                let mut effects: Vec<Effect> = Vec::new();
                if !balls_remain {
                    let mut lost = self.reduce_life();
                    effects.append(&mut lost);
                }
                if no_bricks {
                    let mut next = self.next_level();
                    effects.append(&mut next);
                }
                effects.push(Effect::StepWorld);
                effects
            },
            _ => Vec::new(),
        }
    }

    /// A pointer event.
    pub fn event(&mut self, event: InputEvent) -> (effects: Vec<Effect>)
        requires
            old(self).wf(),
        ensures
            final(self).wf(),
            (final(self)@, effects@) == spec_event(old(self)@, event),
    {
        if self.stage.is_none() {
            return Vec::new();
        }
        match event {
            InputEvent::MouseMove(x, y) => self.on_mouse_move(x, y),
            InputEvent::Click(x, y) => self.on_click(x, y),
            InputEvent::Other => Vec::new(),
        }
    }
}

} // verus!
