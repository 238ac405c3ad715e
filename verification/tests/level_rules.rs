use breakout::brick::Brick;
use breakout::layout::{brick_layout, brick_tile_y, map_levels, BrickPlan};
use breakout::level::{Contact, Level, SoundCue};
use breakout::prelude::{SpriteAction, VRect};

#[test]
fn tile_rows_of_colours() {
    assert_eq!(brick_tile_y('b'), Some(0));
    assert_eq!(brick_tile_y('o'), Some(16));
    assert_eq!(brick_tile_y('r'), Some(32));
    assert_eq!(brick_tile_y('g'), Some(48));
    assert_eq!(brick_tile_y('X'), None);
    assert_eq!(brick_tile_y(' '), None);
}

#[test]
fn maps_have_expected_shapes() {
    let maps = map_levels();
    assert_eq!(maps.len(), 4);
    let rows: Vec<usize> = maps.iter().map(|m| m.len()).collect();
    assert_eq!(rows, vec![3, 6, 6, 8]);
    for m in &maps {
        for row in m {
            assert_eq!(row.len(), 7);
        }
    }
    assert_eq!(maps[0][0], vec!['X', 'X', 'g', 'o', 'g', 'X', 'X']);
    assert_eq!(maps[3][7], vec!['g', 'r', 'b', 'o', 'g', 'r', 'b']);
}

#[test]
fn layout_of_first_map() {
    let maps = map_levels();
    let plan = brick_layout(&maps[0]);
    assert_eq!(plan.len(), 15);
    assert_eq!(
        plan[0],
        BrickPlan { row: 0, col: 2, region: VRect::new(118, 331, 16, 8), tile_y: 48 }
    );
    assert_eq!(
        plan[1],
        BrickPlan { row: 0, col: 3, region: VRect::new(150, 331, 16, 8), tile_y: 16 }
    );
    assert_eq!(
        plan[3],
        BrickPlan { row: 1, col: 0, region: VRect::new(54, 315, 16, 8), tile_y: 16 }
    );
    assert_eq!(
        plan[14],
        BrickPlan { row: 2, col: 5, region: VRect::new(214, 299, 16, 8), tile_y: 0 }
    );
}

#[test]
fn layout_counts_coloured_cells_of_every_map() {
    let maps = map_levels();
    let expected = [15, 33, 26, 35];
    for (m, n) in maps.iter().zip(expected.iter()) {
        let plan = brick_layout(m);
        assert_eq!(plan.len(), *n);
        for p in &plan {
            assert_eq!(brick_tile_y(m[p.row][p.col]), Some(p.tile_y));
            assert_eq!(p.region, VRect::new(54 + 32 * p.col as i32, 331 - 16 * p.row as i32, 16, 8));
        }
    }
}

#[test]
fn layout_bricks_of_every_map_do_not_overlap() {
    for m in &map_levels() {
        let plan = brick_layout(m);
        for i in 0..plan.len() {
            for j in 0..plan.len() {
                if i != j {
                    let a = plan[i].region;
                    let b = plan[j].region;
                    assert!(a.r() <= b.l() || b.r() <= a.l() || a.t() <= b._b() || b.t() <= a._b());
                }
            }
        }
    }
}

#[test]
fn layout_of_empty_and_blank_maps() {
    assert!(brick_layout(&vec![]).is_empty());
    assert!(brick_layout(&vec![vec![], vec!['X', 'y']]).is_empty());
    let plan = brick_layout(&vec![vec![], vec!['X', 'r']]);
    assert_eq!(plan, vec![BrickPlan { row: 1, col: 1, region: VRect::new(86, 315, 16, 8), tile_y: 32 }]);
}

#[test]
fn level_plans_and_counts() {
    let level = Level::new(0);
    assert_eq!(level.level_count(), 4);
    assert_eq!(level.brick_plan(0).unwrap().len(), 15);
    assert_eq!(level.brick_plan(3).unwrap().len(), 35);
    assert!(level.brick_plan(4).is_none());
    assert!(level.brick_plan(usize::MAX).is_none());
    assert!(level.bricks.is_empty());
    assert_eq!(level.paddle.region, VRect::new(160, 40, 24, 8));
    assert_eq!(level.paddle.bounds, VRect::new(160, 208, 160, 208));
}

fn level_with_bricks(handles: &[usize]) -> Level {
    let mut level = Level::new(0);
    let plan = level.brick_plan(0).unwrap();
    let plan: Vec<BrickPlan> = plan.into_iter().take(handles.len()).collect();
    level.place_bricks(&plan, &handles.to_vec());
    level
}

#[test]
fn place_bricks_pairs_plan_with_handles() {
    let level = level_with_bricks(&[10, 11, 12]);
    assert_eq!(level.bricks.len(), 3);
    assert_eq!(level.bricks[0], Brick::new(VRect::new(118, 331, 16, 8), 10));
    assert_eq!(level.bricks[2].handle(), 12);
    assert!(!level.bricks[1].dying());
}

#[test]
fn stopped_contact_with_ball_kills_brick() {
    let mut level = level_with_bricks(&[10, 11, 12]);
    let report = level.check_sprite_collision(&vec![Contact::Stopped(1, 11)], &vec![1]);
    assert_eq!(report.removed, vec![11]);
    assert_eq!(report.sounds, vec![SoundCue::BrickDeath]);
    assert_eq!(level.total_score, 100);
    assert!(level.bricks[1].dying());
    assert!(!level.bricks[0].dying() && !level.bricks[2].dying());
}

#[test]
fn handles_match_in_either_order() {
    let mut level = level_with_bricks(&[10, 11, 12]);
    let report = level.check_sprite_collision(&vec![Contact::Stopped(12, 7)], &vec![3, 7]);
    assert_eq!(report.removed, vec![12]);
    assert_eq!(level.total_score, 100);
}

#[test]
fn started_contacts_change_nothing() {
    let mut level = level_with_bricks(&[10, 11, 12]);
    let before = level.bricks.clone();
    let report = level.check_sprite_collision(&vec![Contact::Started(1, 10), Contact::Started(11, 1)], &vec![1]);
    assert!(report.removed.is_empty());
    assert!(report.sounds.is_empty());
    assert_eq!(level.bricks, before);
    assert_eq!(level.total_score, 0);
}

#[test]
fn contact_without_ball_bounces() {
    let mut level = level_with_bricks(&[10, 11, 12]);
    let report = level.check_sprite_collision(&vec![Contact::Stopped(5, 10)], &vec![1]);
    assert!(report.removed.is_empty());
    assert_eq!(report.sounds, vec![SoundCue::Bounce]);
    assert!(!level.bricks[0].dying());
    assert_eq!(level.total_score, 0);
}

#[test]
fn dying_brick_is_not_killed_twice() {
    let mut level = level_with_bricks(&[10, 11, 12]);
    let report = level.check_sprite_collision(
        &vec![Contact::Stopped(1, 10), Contact::Stopped(10, 1), Contact::Started(1, 12), Contact::Stopped(1, 12)],
        &vec![1],
    );
    assert_eq!(report.removed, vec![10, 12]);
    assert_eq!(
        report.sounds,
        vec![SoundCue::BrickDeath, SoundCue::Bounce, SoundCue::BrickDeath]
    );
    assert_eq!(level.total_score, 200);
}

#[test]
fn ball_against_wall_bounces() {
    let mut level = level_with_bricks(&[10, 11, 12]);
    let report = level.check_sprite_collision(&vec![Contact::Stopped(1, 99)], &vec![1]);
    assert!(report.removed.is_empty());
    assert_eq!(report.sounds, vec![SoundCue::Bounce]);
}

#[test]
fn one_contact_can_kill_two_bricks_sharing_a_collider() {
    let mut level = level_with_bricks(&[10, 10, 12]);
    level.total_score = 50;
    let report = level.check_sprite_collision(&vec![Contact::Stopped(1, 10)], &vec![2, 1]);
    assert_eq!(report.removed, vec![10, 10]);
    assert_eq!(report.sounds, vec![SoundCue::BrickDeath, SoundCue::BrickDeath]);
    assert_eq!(level.total_score, 250);
}

#[test]
fn finished_bricks_are_removed_in_order() {
    let mut level = level_with_bricks(&[10, 11, 12, 13]);
    level.bricks[1].observe_animation(false, true);
    level.bricks[3].observe_animation(false, true);
    level.bricks[2].observe_animation(true, false);
    assert_eq!(level.bricks[1].update(), SpriteAction::Kill);
    assert_eq!(level.bricks[0].update(), SpriteAction::Nothing);
    level.remove_finished_bricks();
    let handles: Vec<usize> = level.bricks.iter().map(|b| b.handle()).collect();
    assert_eq!(handles, vec![10, 12]);
    assert!(level.bricks[1].dying());
}

#[test]
fn brick_kill_marks_dying() {
    let mut b = Brick::new(VRect::new(1, 2, 3, 4), 7);
    assert!(!b.dying());
    b.kill();
    assert!(b.dying());
    assert_eq!(b.update(), SpriteAction::Nothing);
    assert_eq!(b.handle(), 7);
}

#[test]
fn level_mouse_move_moves_paddle() {
    let mut level = Level::new(0);
    level.on_mouse_move(-50, 3);
    assert_eq!(level.paddle.region.x, 24);
    level.on_mouse_move(200, 3);
    assert_eq!(level.paddle.region.x, 200);
}

#[test]
fn level_update_removes_finished_then_resolves_contacts() {
    let mut level = level_with_bricks(&[10, 11, 12]);
    level.bricks[0].observe_animation(false, true);
    let report = level.update(&vec![Contact::Stopped(10, 1), Contact::Stopped(12, 1)], &vec![1]);
    assert_eq!(report.removed, vec![12]);
    assert_eq!(report.sounds, vec![SoundCue::Bounce, SoundCue::BrickDeath]);
    let handles: Vec<usize> = level.bricks.iter().map(|b| b.handle()).collect();
    assert_eq!(handles, vec![11, 12]);
    assert!(level.bricks[1].dying());
    assert!(!level.bricks[0].dying());
    assert_eq!(level.total_score, 100);
    assert_eq!(level.paddle.region, VRect::new(160, 40, 24, 8));
}

#[test]
fn score_bound_checked_before_a_frame() {
    let mut level = level_with_bricks(&[10, 11, 12]);
    level.bricks[0].observe_animation(false, true);
    let contacts = vec![Contact::Stopped(10, 1), Contact::Stopped(11, 1), Contact::Stopped(12, 1)];
    level.total_score = i32::MAX - 200;
    assert!(level.update_fits(&contacts, &vec![1]));
    level.total_score = i32::MAX - 199;
    assert!(!level.update_fits(&contacts, &vec![1]));
    assert!(level.update_fits(&contacts, &vec![5]));
    assert!(level.update_fits(&vec![], &vec![1]));
    level.total_score = i32::MAX - 200;
    let report = level.update(&contacts, &vec![1]);
    assert_eq!(report.removed, vec![11, 12]);
    assert_eq!(level.total_score, i32::MAX);
}

#[test]
fn score_rises_by_standing_bricks_killed() {
    let mut level = level_with_bricks(&[10, 11, 12]);
    level.bricks[1].kill();
    level.total_score = 40;
    let report = level.check_sprite_collision(
        &vec![Contact::Stopped(1, 10), Contact::Stopped(1, 11), Contact::Stopped(1, 12), Contact::Stopped(1, 10)],
        &vec![1],
    );
    assert_eq!(report.removed, vec![10, 12]);
    assert_eq!(level.total_score, 240);
}
