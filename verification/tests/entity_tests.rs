use space_shooter::entity::{
    Bullet, Enemy, EnemyType, Player, ShotPattern, ENEMY_BULLET_SIZE, ENEMY_SHOOT_COOLDOWN,
    ENEMY_SIZE, PLAYER_BULLET_SIZE,
};
use space_shooter::input::InputState;

fn space() -> InputState {
    let mut input = InputState::new();
    input.space_pressed = true;
    input
}

#[test]
fn player_starts_ready() {
    let player = Player::new();
    assert!(player.is_active());
    assert!(player.can_shoot());
    assert_eq!(player.size, 30);
    assert_eq!(player.speed, 5);
    assert_eq!(player.shoot_cooldown, 10);
    assert_eq!(player.current_cooldown, 0);
}

#[test]
fn player_waits_ten_frames_between_shots() {
    let mut player = Player::new();
    player.handle_input(&space());
    assert_eq!(player.current_cooldown, 10);
    assert!(!player.can_shoot());
    for _ in 0..9 {
        player.update();
        assert!(!player.can_shoot());
    }
    player.update();
    assert!(player.can_shoot());
    player.update();
    assert_eq!(player.current_cooldown, 0);
}

#[test]
fn player_input_without_space_keeps_cooldown() {
    let mut player = Player::new();
    player.current_cooldown = 4;
    let mut input = InputState::new();
    input.left_pressed = true;
    player.handle_input(&input);
    assert_eq!(player.current_cooldown, 4);
    player.handle_input(&space());
    assert_eq!(player.current_cooldown, 4);
}

#[test]
fn enemy_types_have_their_hit_points() {
    assert_eq!(Enemy::new(EnemyType::Basic, 0).hp, 1);
    assert_eq!(Enemy::new(EnemyType::Zigzag, 0).hp, 2);
    assert_eq!(Enemy::new(EnemyType::Follower, 0).hp, 3);
    let enemy = Enemy::new(EnemyType::Zigzag, 17);
    assert!(enemy.is_active());
    assert_eq!(enemy.size, ENEMY_SIZE);
    assert_eq!(enemy.shoot_cooldown, ENEMY_SHOOT_COOLDOWN);
    assert_eq!(enemy.current_cooldown, 17);
    assert_eq!(enemy.enemy_type(), EnemyType::Zigzag);
}

#[test]
fn enemy_velocities() {
    assert_eq!(EnemyType::Basic.velocity_halves(), (0, 4));
    assert_eq!(EnemyType::Zigzag.velocity_halves(), (2, 3));
    assert_eq!(EnemyType::Follower.velocity_halves(), (0, 2));
}

#[test]
fn follower_falls_to_three_hits() {
    let mut enemy = Enemy::new(EnemyType::Follower, 0);
    enemy.take_damage(1);
    assert!(enemy.is_active());
    assert_eq!(enemy.hp, 2);
    enemy.take_damage(1);
    assert!(enemy.is_active());
    assert_eq!(enemy.hp, 1);
    enemy.take_damage(1);
    assert!(!enemy.is_active());
    assert_eq!(enemy.hp, 1);
}

#[test]
fn heavy_damage_destroys_at_once() {
    let mut enemy = Enemy::new(EnemyType::Zigzag, 0);
    enemy.take_damage(5);
    assert!(!enemy.is_active());
    assert_eq!(enemy.hp, 2);
    enemy.take_damage(1);
    assert!(!enemy.is_active());
}

#[test]
fn enemy_update_counts_down_and_leaves_screen() {
    let mut enemy = Enemy::new(EnemyType::Basic, 2);
    enemy.update(false);
    assert_eq!(enemy.current_cooldown, 1);
    assert!(enemy.is_active());
    enemy.update(false);
    assert!(enemy.can_shoot());
    enemy.update(false);
    assert_eq!(enemy.current_cooldown, 0);
    enemy.update(true);
    assert!(!enemy.is_active());
    let frozen = enemy;
    enemy.update(false);
    assert_eq!(enemy, frozen);
}

#[test]
fn inactive_enemy_does_not_count_down() {
    let mut enemy = Enemy::new(EnemyType::Basic, 5);
    enemy.take_damage(1);
    enemy.update(false);
    assert_eq!(enemy.current_cooldown, 5);
}

#[test]
fn enemies_shoot_by_type_when_ready() {
    let basic = Enemy::new(EnemyType::Basic, 0);
    assert_eq!(basic.shoot(true, true), Some(ShotPattern::Straight));
    assert_eq!(basic.shoot(false, true), None);
    assert_eq!(basic.shoot(true, false), None);
    let zigzag = Enemy::new(EnemyType::Zigzag, 0);
    assert_eq!(zigzag.shoot(true, true), Some(ShotPattern::RandomDirection));
    let follower = Enemy::new(EnemyType::Follower, 0);
    assert_eq!(follower.shoot(true, true), Some(ShotPattern::AimedAtPlayer));
    let waiting = Enemy::new(EnemyType::Follower, 3);
    assert_eq!(waiting.shoot(true, true), None);
    assert_eq!(ShotPattern::Straight.spawn_offset(), 20);
    assert_eq!(ShotPattern::RandomDirection.spawn_offset(), 10);
    assert_eq!(ShotPattern::AimedAtPlayer.spawn_offset(), 10);
}

#[test]
fn enemy_type_rolls() {
    assert_eq!(EnemyType::from_roll(0), EnemyType::Basic);
    assert_eq!(EnemyType::from_roll(1), EnemyType::Zigzag);
    assert_eq!(EnemyType::from_roll(2), EnemyType::Follower);
    assert_eq!(EnemyType::from_roll(7), EnemyType::Follower);
    assert_eq!(EnemyType::Basic.max_hp(), 1);
    assert_eq!(EnemyType::Follower.shot_pattern(), ShotPattern::AimedAtPlayer);
}

#[test]
fn bullets_by_shooter() {
    let player_bullet = Bullet::new_player_bullet();
    assert!(player_bullet.is_from_player());
    assert!(player_bullet.is_active());
    assert_eq!(player_bullet.size, PLAYER_BULLET_SIZE);
    let enemy_bullet = Bullet::new_enemy_bullet();
    assert!(!enemy_bullet.is_from_player());
    assert_eq!(enemy_bullet.size, ENEMY_BULLET_SIZE);
    assert_eq!(Bullet::new_aimed_enemy_bullet(), enemy_bullet);
    assert_eq!(Bullet::new(true), player_bullet);
    assert_eq!(Bullet::new(false).size, 6);
    assert_eq!(Bullet::new(true).size, 8);
}

#[test]
fn bullet_deactivates_and_leaves_screen() {
    let mut bullet = Bullet::new_enemy_bullet();
    bullet.update(false);
    assert!(bullet.is_active());
    bullet.update(true);
    assert!(!bullet.is_active());
    bullet.update(false);
    assert!(!bullet.is_active());
    let mut other = Bullet::new_player_bullet();
    other.deactivate();
    assert!(!other.is_active());
    assert!(other.is_from_player());
}
