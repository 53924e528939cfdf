use space_shooter::entity::{Bullet, Enemy, EnemyType, Player, ShotPattern};
use space_shooter::game::{
    retain_flagged, EnemyFrame, Formation, FormationSlot, Game, GameState, Overlaps, SlotX,
};
use space_shooter::input::InputState;

fn keys(space: bool, escape: bool) -> InputState {
    let mut input = InputState::new();
    input.space_pressed = space;
    input.escape_pressed = escape;
    input
}

fn playing_game() -> Game {
    let mut game = Game::new();
    game.state = GameState::Playing;
    game.needs_redraw = false;
    game
}

fn no_overlaps(bullets: usize, enemies: usize) -> Overlaps {
    Overlaps {
        bullet_enemy: vec![vec![false; enemies]; bullets],
        player_enemy: vec![false; enemies],
        player_bullet: vec![false; bullets],
    }
}

#[test]
fn new_game_waits_at_menu() {
    let game = Game::new();
    assert_eq!(game.state, GameState::MainMenu);
    assert_eq!(game.score, 0);
    assert!(game.enemies.is_empty());
    assert!(game.bullets.is_empty());
    assert_eq!(game.animation_id, None);
    assert!(game.needs_redraw);
    assert_eq!(game.player, Player::new());
    assert!(!game.is_playing());
}

#[test]
fn space_at_menu_starts_play() {
    let mut game = Game::new();
    game.needs_redraw = false;
    let outcome = game.handle_input(&keys(true, false));
    assert_eq!(game.state, GameState::Playing);
    assert!(game.needs_redraw);
    assert!(!outcome.reset);
    assert!(outcome.move_player);
    assert!(outcome.player_bullet);
    assert_eq!(game.bullets.len(), 1);
    assert!(game.is_playing());
}

#[test]
fn escape_during_play_pauses() {
    let mut game = playing_game();
    game.score = 300;
    game.enemies.push(Enemy::new(EnemyType::Basic, 3));
    let before_player = game.player;
    let outcome = game.handle_input(&keys(true, true));
    assert_eq!(game.state, GameState::Paused);
    assert!(game.needs_redraw);
    assert!(!outcome.move_player);
    assert!(!outcome.player_bullet);
    assert_eq!(game.player, before_player);
    assert!(game.bullets.is_empty());
    assert_eq!(game.enemies.len(), 1);
    assert_eq!(game.score, 300);
}

#[test]
fn space_and_escape_at_menu_pause_at_once() {
    let mut game = Game::new();
    game.needs_redraw = false;
    let outcome = game.handle_input(&keys(true, true));
    assert_eq!(game.state, GameState::Paused);
    assert!(game.needs_redraw);
    assert!(!outcome.move_player);
}

#[test]
fn space_after_game_over_resets_and_plays() {
    let mut game = playing_game();
    game.score = 700;
    game.enemies.push(Enemy::new(EnemyType::Basic, 3));
    game.bullets.push(Bullet::new_enemy_bullet());
    game.player.current_cooldown = 0;
    game.game_over();
    assert_eq!(game.state, GameState::GameOver);
    let outcome = game.handle_input(&keys(true, false));
    assert!(outcome.reset);
    assert!(outcome.move_player);
    assert!(outcome.player_bullet);
    assert_eq!(game.state, GameState::Playing);
    assert_eq!(game.score, 0);
    assert!(game.enemies.is_empty());
    assert_eq!(game.bullets, vec![Bullet::new_player_bullet()]);
    assert_eq!(game.player.current_cooldown, 10);
}

#[test]
fn space_continues_paused_game() {
    let mut game = playing_game();
    game.score = 500;
    game.enemies.push(Enemy::new(EnemyType::Zigzag, 1));
    game.state = GameState::Paused;
    let idle = game.handle_input(&keys(false, false));
    assert_eq!(game.state, GameState::Paused);
    assert!(!idle.move_player);
    assert!(!game.needs_redraw);
    let held = game.handle_input(&keys(false, true));
    assert_eq!(game.state, GameState::Paused);
    assert!(!held.move_player);
    let outcome = game.handle_input(&keys(true, false));
    assert_eq!(game.state, GameState::Playing);
    assert!(game.needs_redraw);
    assert!(!outcome.reset);
    assert!(outcome.move_player);
    assert_eq!(game.score, 500);
    assert_eq!(game.enemies.len(), 1);
}

#[test]
fn paused_frames_do_not_update_the_world() {
    let mut game = playing_game();
    let pause = game.begin_frame(&keys(false, true));
    assert!(pause.update_world);
    assert_eq!(game.state, GameState::Paused);
    let paused = game.begin_frame(&keys(false, false));
    assert!(!paused.update_world);
    let resume = game.begin_frame(&keys(true, false));
    assert!(!resume.update_world);
    assert_eq!(game.state, GameState::Playing);
}

#[test]
fn space_during_play_fires_once_per_cooldown() {
    let mut game = playing_game();
    let outcome = game.handle_input(&keys(true, false));
    assert!(outcome.move_player);
    assert!(outcome.player_bullet);
    assert_eq!(game.bullets, vec![Bullet::new_player_bullet()]);
    assert_eq!(game.player.current_cooldown, 10);
    assert!(!game.player.can_shoot());
    for _ in 0..9 {
        game.player.update();
        let held = game.handle_input(&keys(true, false));
        assert!(!held.player_bullet);
    }
    assert_eq!(game.bullets.len(), 1);
    game.player.update();
    let again = game.handle_input(&keys(true, false));
    assert!(again.player_bullet);
    assert_eq!(game.bullets.len(), 2);
    assert_eq!(game.player.current_cooldown, 10);
}

#[test]
fn frame_at_menu_reads_space_and_starts_play() {
    let mut game = Game::new();
    game.needs_redraw = false;
    let step = game.begin_frame(&keys(true, false));
    assert!(!step.update_world);
    assert!(step.input.move_player);
    assert!(step.input.player_bullet);
    assert_eq!(game.state, GameState::Playing);
    assert!(game.needs_redraw);
    game.needs_redraw = false;
    let next = game.begin_frame(&keys(false, false));
    assert!(next.update_world);
    assert!(game.needs_redraw);
}

#[test]
fn frame_after_game_over_restarts_on_space() {
    let mut game = playing_game();
    game.score = 400;
    game.game_over();
    let idle = game.begin_frame(&keys(false, false));
    assert!(!idle.update_world);
    assert_eq!(game.state, GameState::GameOver);
    let step = game.begin_frame(&keys(true, false));
    assert!(step.input.reset);
    assert!(!step.update_world);
    assert_eq!(game.state, GameState::Playing);
    assert_eq!(game.score, 0);
}

#[test]
fn resolve_frame_leaves_only_active_entities() {
    let mut game = playing_game();
    game.score = 200;
    game.enemies.push(Enemy::new(EnemyType::Basic, 0));
    game.enemies.push(Enemy::new(EnemyType::Zigzag, 0));
    game.bullets.push(Bullet::new_player_bullet());
    game.bullets.push(Bullet::new_player_bullet());
    game.bullets.push(Bullet::new_enemy_bullet());
    let mut overlaps = no_overlaps(3, 2);
    overlaps.bullet_enemy[0][0] = true;
    overlaps.bullet_enemy[1][1] = true;
    let (bullets_kept, enemies_kept) = game.resolve_frame(&overlaps);
    assert_eq!(bullets_kept, vec![false, false, true]);
    assert_eq!(enemies_kept, vec![false, true]);
    assert_eq!(game.score, 300);
    assert_eq!(game.enemies.len(), 1);
    assert_eq!(game.enemies[0].hp, 1);
    assert_eq!(game.bullets, vec![Bullet::new_enemy_bullet()]);
    assert!(game.bullets.iter().all(|b| b.is_active()));
    assert!(game.enemies.iter().all(|e| e.is_active()));
    assert_eq!(game.state, GameState::Playing);
}

#[test]
fn reset_game_clears_everything() {
    let mut game = playing_game();
    game.score = 300;
    game.enemies.push(Enemy::new(EnemyType::Zigzag, 0));
    game.reset_game();
    assert_eq!(game.state, GameState::Playing);
    assert_eq!(game.score, 0);
    assert!(game.enemies.is_empty());
    assert!(game.needs_redraw);
}

#[test]
fn take_redraw_clears_the_flag() {
    let mut game = Game::new();
    assert!(game.take_redraw());
    assert!(!game.take_redraw());
    game.set_animation_id(42);
    assert_eq!(game.animation_id, Some(42));
}

#[test]
fn player_bullet_destroys_basic_enemy_and_scores() {
    let mut game = playing_game();
    game.enemies.push(Enemy::new(EnemyType::Basic, 0));
    game.bullets.push(Bullet::new_player_bullet());
    let mut overlaps = no_overlaps(1, 1);
    overlaps.bullet_enemy[0][0] = true;
    assert!(game.collision_score_fits(&overlaps));
    game.check_collisions(&overlaps);
    assert_eq!(game.score, 100);
    assert!(!game.enemies[0].is_active());
    assert!(!game.bullets[0].is_active());
    assert_eq!(game.state, GameState::Playing);
}

#[test]
fn bullet_hits_only_the_first_enemy() {
    let mut game = playing_game();
    game.enemies.push(Enemy::new(EnemyType::Zigzag, 0));
    game.enemies.push(Enemy::new(EnemyType::Basic, 0));
    game.bullets.push(Bullet::new_player_bullet());
    let mut overlaps = no_overlaps(1, 2);
    overlaps.bullet_enemy[0][0] = true;
    overlaps.bullet_enemy[0][1] = true;
    game.check_collisions(&overlaps);
    assert_eq!(game.score, 0);
    assert!(game.enemies[0].is_active());
    assert_eq!(game.enemies[0].hp, 1);
    assert!(game.enemies[1].is_active());
    assert!(!game.bullets[0].is_active());
}

#[test]
fn two_bullets_destroy_a_zigzag() {
    let mut game = playing_game();
    game.enemies.push(Enemy::new(EnemyType::Zigzag, 0));
    game.bullets.push(Bullet::new_player_bullet());
    game.bullets.push(Bullet::new_player_bullet());
    game.bullets.push(Bullet::new_player_bullet());
    let mut overlaps = no_overlaps(3, 1);
    for row in overlaps.bullet_enemy.iter_mut() {
        row[0] = true;
    }
    game.check_collisions(&overlaps);
    assert_eq!(game.score, 100);
    assert!(!game.enemies[0].is_active());
    assert!(!game.bullets[0].is_active());
    assert!(!game.bullets[1].is_active());
    assert!(game.bullets[2].is_active());
}

#[test]
fn enemy_bullets_do_not_hit_enemies() {
    let mut game = playing_game();
    game.enemies.push(Enemy::new(EnemyType::Basic, 0));
    game.bullets.push(Bullet::new_enemy_bullet());
    let mut overlaps = no_overlaps(1, 1);
    overlaps.bullet_enemy[0][0] = true;
    game.check_collisions(&overlaps);
    assert!(game.enemies[0].is_active());
    assert!(game.bullets[0].is_active());
    assert_eq!(game.score, 0);
}

#[test]
fn player_struck_by_enemy_ends_game() {
    let mut game = playing_game();
    game.enemies.push(Enemy::new(EnemyType::Basic, 0));
    let mut overlaps = no_overlaps(0, 1);
    overlaps.player_enemy[0] = true;
    game.check_collisions(&overlaps);
    assert_eq!(game.state, GameState::GameOver);
    assert!(game.needs_redraw);
}

#[test]
fn player_struck_by_enemy_bullet_ends_game() {
    let mut game = playing_game();
    game.bullets.push(Bullet::new_enemy_bullet());
    let mut overlaps = no_overlaps(1, 0);
    overlaps.player_bullet[0] = true;
    game.check_collisions(&overlaps);
    assert_eq!(game.state, GameState::GameOver);
}

#[test]
fn own_and_spent_bullets_do_not_end_game() {
    let mut game = playing_game();
    game.bullets.push(Bullet::new_player_bullet());
    let mut spent = Bullet::new_enemy_bullet();
    spent.deactivate();
    game.bullets.push(spent);
    let mut overlaps = no_overlaps(2, 0);
    overlaps.player_bullet[0] = true;
    overlaps.player_bullet[1] = true;
    game.check_collisions(&overlaps);
    assert_eq!(game.state, GameState::Playing);
    assert!(!game.needs_redraw);
}

#[test]
fn enemy_destroyed_by_bullet_no_longer_strikes_player() {
    let mut game = playing_game();
    game.enemies.push(Enemy::new(EnemyType::Basic, 0));
    game.bullets.push(Bullet::new_player_bullet());
    let mut overlaps = no_overlaps(1, 1);
    overlaps.bullet_enemy[0][0] = true;
    overlaps.player_enemy[0] = true;
    game.check_collisions(&overlaps);
    assert_eq!(game.state, GameState::Playing);
    assert_eq!(game.score, 100);
}

#[test]
fn score_overflow_is_detected() {
    let mut game = playing_game();
    game.score = u32::MAX - 50;
    game.enemies.push(Enemy::new(EnemyType::Basic, 0));
    game.bullets.push(Bullet::new_player_bullet());
    let mut overlaps = no_overlaps(1, 1);
    assert!(game.collision_score_fits(&overlaps));
    overlaps.bullet_enemy[0][0] = true;
    assert!(!game.collision_score_fits(&overlaps));
    game.score = u32::MAX - 100;
    assert!(game.collision_score_fits(&overlaps));
}

#[test]
fn removal_keeps_active_in_order() {
    let mut game = playing_game();
    let mut gone = Enemy::new(EnemyType::Basic, 1);
    gone.take_damage(1);
    game.enemies.push(Enemy::new(EnemyType::Zigzag, 1));
    game.enemies.push(gone);
    game.enemies.push(Enemy::new(EnemyType::Follower, 2));
    let mut spent = Bullet::new_player_bullet();
    spent.deactivate();
    game.bullets.push(spent);
    game.bullets.push(Bullet::new_enemy_bullet());
    let (bullet_flags, enemy_flags) = game.remove_inactive();
    assert_eq!(bullet_flags, vec![false, true]);
    assert_eq!(enemy_flags, vec![true, false, true]);
    assert_eq!(game.enemies.len(), 2);
    assert_eq!(game.enemies[0].enemy_type, EnemyType::Zigzag);
    assert_eq!(game.enemies[1].enemy_type, EnemyType::Follower);
    assert_eq!(game.bullets, vec![Bullet::new_enemy_bullet()]);
}

#[test]
fn retain_flagged_keeps_flagged_items() {
    let mut items = vec![1.5f64, 2.5, 3.5, 4.5];
    retain_flagged(&mut items, &vec![true, false, false, true]);
    assert_eq!(items, vec![1.5, 4.5]);
    let mut none: Vec<u8> = vec![1, 2];
    retain_flagged(&mut none, &vec![false, false]);
    assert!(none.is_empty());
}

#[test]
fn bullets_update_by_flags() {
    let mut game = playing_game();
    game.bullets.push(Bullet::new_player_bullet());
    game.bullets.push(Bullet::new_enemy_bullet());
    game.update_bullets(&vec![true, false]);
    assert!(!game.bullets[0].is_active());
    assert!(game.bullets[1].is_active());
}

#[test]
fn ready_enemies_fire_in_order() {
    let mut game = playing_game();
    game.enemies.push(Enemy::new(EnemyType::Basic, 1));
    game.enemies.push(Enemy::new(EnemyType::Follower, 0));
    game.enemies.push(Enemy::new(EnemyType::Zigzag, 0));
    let frame = EnemyFrame { off_screen: false, on_screen: true, chance: true };
    let off_top = EnemyFrame { off_screen: false, on_screen: false, chance: true };
    let shots = game.update_enemies(&vec![frame, frame, off_top]);
    assert_eq!(shots, vec![Some(ShotPattern::Straight), Some(ShotPattern::AimedAtPlayer), None]);
    assert_eq!(game.bullets.len(), 2);
    assert!(game.bullets.iter().all(|b| !b.is_from_player() && b.is_active()));
    assert_eq!(game.enemies[0].current_cooldown, 0);
}

#[test]
fn departed_enemy_is_deactivated() {
    let mut game = playing_game();
    game.enemies.push(Enemy::new(EnemyType::Basic, 5));
    let frame = EnemyFrame { off_screen: true, on_screen: true, chance: false };
    let shots = game.update_enemies(&vec![frame]);
    assert_eq!(shots, vec![None]);
    assert!(!game.enemies[0].is_active());
    assert_eq!(game.enemies[0].current_cooldown, 4);
}

#[test]
fn spawning_follows_state_and_count() {
    let mut game = Game::new();
    assert!(!game.spawning_enabled());
    game.state = GameState::Playing;
    assert!(game.spawning_enabled());
    assert!(game.formation_allowed());
    for roll in 0..5u32 {
        game.spawn_enemy(roll, 7);
    }
    assert!(!game.formation_allowed());
    assert_eq!(game.enemies[0].enemy_type, EnemyType::Basic);
    assert_eq!(game.enemies[1].enemy_type, EnemyType::Zigzag);
    assert_eq!(game.enemies[2].enemy_type, EnemyType::Follower);
    assert_eq!(game.enemies[4].enemy_type, EnemyType::Follower);
    assert_eq!(game.enemies[3].current_cooldown, 7);
}

#[test]
fn v_formation_layout() {
    let slots = Formation::V.layout();
    let places: Vec<(SlotX, i32)> = slots.iter().map(|s| (s.x, s.y)).collect();
    assert_eq!(
        places,
        vec![
            (SlotX::FromCenter(-80), -70),
            (SlotX::FromCenter(-40), -50),
            (SlotX::FromCenter(0), -30),
            (SlotX::FromCenter(40), -50),
            (SlotX::FromCenter(80), -70),
        ]
    );
    assert!(slots.iter().all(|s| s.enemy_type == EnemyType::Basic));
    assert_eq!(Formation::V.size(), 5);
}

#[test]
fn line_and_diamond_layouts() {
    let line = Formation::Line.layout();
    assert_eq!(line.len(), 5);
    for (i, slot) in line.iter().enumerate() {
        assert_eq!(
            *slot,
            FormationSlot {
                x: SlotX::Column(i as u32 + 1),
                y: -30,
                enemy_type: EnemyType::Zigzag
            }
        );
    }
    let diamond = Formation::Diamond.layout();
    let places: Vec<(SlotX, i32)> = diamond.iter().map(|s| (s.x, s.y)).collect();
    assert_eq!(
        places,
        vec![
            (SlotX::FromCenter(0), -70),
            (SlotX::FromCenter(-40), -30),
            (SlotX::FromCenter(40), -30),
            (SlotX::FromCenter(0), 10),
        ]
    );
    assert!(diamond.iter().all(|s| s.enemy_type == EnemyType::Follower));
    assert_eq!(Formation::Diamond.size(), 4);
}

#[test]
fn formation_rolls_and_spawns() {
    assert_eq!(Formation::from_roll(0), Formation::V);
    assert_eq!(Formation::from_roll(1), Formation::Line);
    assert_eq!(Formation::from_roll(2), Formation::Diamond);
    assert_eq!(Formation::from_roll(9), Formation::Diamond);
    let mut game = playing_game();
    game.spawn_enemy(0, 0);
    game.spawn_enemy_formation(Formation::Diamond, &vec![1, 2, 3, 4]);
    assert_eq!(game.enemies.len(), 5);
    assert_eq!(game.enemies[0].enemy_type, EnemyType::Basic);
    for i in 1..5 {
        assert_eq!(game.enemies[i], Enemy::new(EnemyType::Follower, i as u32));
    }
}
