//! The game's entities (player, enemies, bullets): their life, health and weapon timers.
//!
//! Positions, velocities and the geometry of collisions are real numbers and are kept by
//! the code that draws the game; the entities here hold what the game's rules decide on.
use vstd::prelude::*;
use crate::input::InputState;

verus! {

/// Size of the player's ship, in pixels.
pub const PLAYER_SIZE: u32 = 30;
/// Distance the player's ship moves per frame while a direction is held, in pixels.
pub const PLAYER_SPEED: u32 = 5;
/// Frames the player waits between shots.
pub const PLAYER_SHOOT_COOLDOWN: u32 = 10;
/// Size of an enemy ship, in pixels.
pub const ENEMY_SIZE: u32 = 25;
/// Frames an enemy waits between shots.
pub const ENEMY_SHOOT_COOLDOWN: u32 = 60;
/// Size of a bullet fired by the player, in pixels.
pub const PLAYER_BULLET_SIZE: u32 = 8;
/// Size of a bullet fired by an enemy, in pixels.
pub const ENEMY_BULLET_SIZE: u32 = 6;
/// Upward speed of a player bullet, in pixels per frame.
pub const PLAYER_BULLET_SPEED: u32 = 8;
/// Speed of an enemy bullet, in pixels per frame.
pub const ENEMY_BULLET_SPEED: u32 = 5;
/// Distance above the player's ship at which its bullets appear, in pixels.
pub const PLAYER_BULLET_OFFSET: u32 = 20;
/// Height below which an enemy has left the screen, in pixels.
pub const ENEMY_EXIT_Y: u32 = 600;
/// Lowest coordinate (either axis) at which a bullet is still on screen, in pixels.
pub const BULLET_MIN_COORD: i32 = -20;
/// Highest coordinate (either axis) at which a bullet is still on screen, in pixels.
pub const BULLET_MAX_COORD: i32 = 620;

/// Represents the player's ship.
#[derive(Clone, Copy, PartialEq, Eq, Structural, Debug)]
pub struct Player {
    /// Flag indicating if the player is active
    pub active: bool,
    /// Size of the player ship, in pixels
    pub size: u32,
    /// Player movement speed, in pixels per frame
    pub speed: u32,
    /// Player shooting cooldown, in frames
    pub shoot_cooldown: u32,
    /// Current shooting cooldown counter
    pub current_cooldown: u32,
}

/// A freshly created player.
pub open spec fn initial_player() -> Player {
    Player {
        active: true,
        size: PLAYER_SIZE,
        speed: PLAYER_SPEED,
        shoot_cooldown: PLAYER_SHOOT_COOLDOWN,
        current_cooldown: 0,
    }
}

/// A cooldown counter after one frame: it counts down to zero and stays there.
pub open spec fn tick(cooldown: u32) -> u32 {
    if cooldown > 0 {
        (cooldown - 1) as u32
    } else {
        0
    }
}

impl Player {
    /// A well-formed player: its weapon needs a cooldown, and the counter never exceeds it.
    pub open spec fn wf(self) -> bool {
        self.shoot_cooldown > 0 && self.current_cooldown <= self.shoot_cooldown
    }

    /// This player after reading `input`: pressing space while the weapon is ready
    /// starts the shooting cooldown.
    pub open spec fn after_input(self, input: InputState) -> Player {
        if input.space_pressed && self.current_cooldown == 0 {
            Player { current_cooldown: self.shoot_cooldown, ..self }
        } else {
            self
        }
    }

    /// This player after one frame.
    pub open spec fn after_update(self) -> Player {
        Player { current_cooldown: tick(self.current_cooldown), ..self }
    }

    /// This player after `frames` frames.
    pub open spec fn after_updates(self, frames: nat) -> Player
        decreases frames,
    {
        if frames == 0 {
            self
        } else {
            self.after_update().after_updates((frames - 1) as nat)
        }
    }

    /// Creates a new player.
    pub fn new() -> (player: Player)
        ensures
            player == initial_player(),
            player.wf(),
    {
        Player {
            active: true,
            size: PLAYER_SIZE,
            speed: PLAYER_SPEED,
            shoot_cooldown: PLAYER_SHOOT_COOLDOWN,
            current_cooldown: 0,
        }
    }

    /// Handles player input (the weapon's part of it; moving the ship is the caller's).
    pub fn handle_input(&mut self, input: &InputState)
        ensures
            *final(self) == old(self).after_input(*input),
            old(self).wf() ==> final(self).wf(),
    {
        if input.space_pressed && self.current_cooldown == 0 {
            self.current_cooldown = self.shoot_cooldown;
        }
    }

    /// Check if player can shoot.
    pub fn can_shoot(&self) -> (ready: bool)
        ensures
            ready == (self.current_cooldown == 0),
    {
        self.current_cooldown == 0
    }

    /// Check if the player is active.
    pub fn is_active(&self) -> (active: bool)
        ensures
            active == self.active,
    {
        self.active
    }

    /// Updates the player for one frame: the shooting cooldown counts down.
    pub fn update(&mut self)
        ensures
            *final(self) == old(self).after_update(),
            old(self).wf() ==> final(self).wf(),
    {
        if self.current_cooldown > 0 {
            self.current_cooldown = self.current_cooldown - 1;
        }
    }
}

/// Different enemy types with different behaviors.
#[derive(Clone, Copy, PartialEq, Eq, Structural, Debug)]
pub enum EnemyType {
    /// Basic enemy that moves straight down
    Basic,
    /// Enemy that moves in a sine wave pattern
    Zigzag,
    /// Enemy that follows the player
    Follower,
}

/// How an enemy shoots.
#[derive(Clone, Copy, PartialEq, Eq, Structural, Debug)]
pub enum ShotPattern {
    /// Straight down
    Straight,
    /// In a random direction
    RandomDirection,
    /// Towards the player
    AimedAtPlayer,
}

/// Hit points an enemy of type `t` starts with.
pub open spec fn max_hp_of(t: EnemyType) -> u32 {
    match t {
        EnemyType::Basic => 1,
        EnemyType::Zigzag => 2,
        EnemyType::Follower => 3,
    }
}

/// Starting velocity of an enemy of type `t`, in half pixels per frame (x, y).
pub open spec fn velocity_halves_of(t: EnemyType) -> (i32, i32) {
    match t {
        EnemyType::Basic => (0, 4),
        EnemyType::Zigzag => (2, 3),
        EnemyType::Follower => (0, 2),
    }
}

/// The enemy type that a roll in `0..3` selects; larger rolls select the follower.
pub open spec fn enemy_type_for_roll(roll: u32) -> EnemyType {
    if roll == 0 {
        EnemyType::Basic
    } else if roll == 1 {
        EnemyType::Zigzag
    } else {
        EnemyType::Follower
    }
}

/// How an enemy of type `t` shoots.
pub open spec fn shot_pattern_of(t: EnemyType) -> ShotPattern {
    match t {
        EnemyType::Basic => ShotPattern::Straight,
        EnemyType::Zigzag => ShotPattern::RandomDirection,
        EnemyType::Follower => ShotPattern::AimedAtPlayer,
    }
}

/// Vertical distance below an enemy at which its bullet of pattern `p` appears.
pub open spec fn spawn_offset_of(p: ShotPattern) -> u32 {
    match p {
        ShotPattern::Straight => 20,
        ShotPattern::RandomDirection => 10,
        ShotPattern::AimedAtPlayer => 10,
    }
}

impl EnemyType {
    /// Hit points an enemy of this type starts with.
    pub fn max_hp(self) -> (hp: u32)
        ensures
            hp == max_hp_of(self),
    {
        match self {
            EnemyType::Basic => 1,
            EnemyType::Zigzag => 2,
            EnemyType::Follower => 3,
        }
    }

    /// Starting velocity of an enemy of this type, in half pixels per frame (x, y).
    pub fn velocity_halves(self) -> (v: (i32, i32))
        ensures
            v == velocity_halves_of(self),
    {
        match self {
            EnemyType::Basic => (0, 4),
            EnemyType::Zigzag => (2, 3),
            EnemyType::Follower => (0, 2),
        }
    }

    /// The enemy type that a roll in `0..3` selects (0: basic, 1: zigzag, otherwise follower).
    pub fn from_roll(roll: u32) -> (t: EnemyType)
        ensures
            t == enemy_type_for_roll(roll),
    {
        if roll == 0 {
            EnemyType::Basic
        } else if roll == 1 {
            EnemyType::Zigzag
        } else {
            EnemyType::Follower
        }
    }

    /// How an enemy of this type shoots.
    pub fn shot_pattern(self) -> (p: ShotPattern)
        ensures
            p == shot_pattern_of(self),
    {
        match self {
            EnemyType::Basic => ShotPattern::Straight,
            EnemyType::Zigzag => ShotPattern::RandomDirection,
            EnemyType::Follower => ShotPattern::AimedAtPlayer,
        }
    }
}

impl ShotPattern {
    /// Vertical distance below the enemy at which the bullet appears, in pixels.
    pub fn spawn_offset(self) -> (offset: u32)
        ensures
            offset == spawn_offset_of(self),
    {
        match self {
            ShotPattern::Straight => 20,
            ShotPattern::RandomDirection => 10,
            ShotPattern::AimedAtPlayer => 10,
        }
    }
}

/// Represents an enemy ship.
#[derive(Clone, Copy, PartialEq, Eq, Structural, Debug)]
pub struct Enemy {
    /// Size of the enemy, in pixels
    pub size: u32,
    /// Health points
    pub hp: u32,
    /// Flag indicating if the enemy is active
    pub active: bool,
    /// Enemy type (determines behavior)
    pub enemy_type: EnemyType,
    /// Shoot cooldown, in frames
    pub shoot_cooldown: u32,
    /// Current cooldown counter
    pub current_cooldown: u32,
}

/// A freshly created enemy of type `t` whose weapon is ready in `cooldown` frames.
pub open spec fn initial_enemy(t: EnemyType, cooldown: u32) -> Enemy {
    Enemy {
        size: ENEMY_SIZE,
        hp: max_hp_of(t),
        active: true,
        enemy_type: t,
        shoot_cooldown: ENEMY_SHOOT_COOLDOWN,
        current_cooldown: cooldown,
    }
}

impl Enemy {
    /// A well-formed enemy: while active it has hit points left, and its weapon is ready
    /// within one shooting period.
    pub open spec fn wf(self) -> bool {
        &&& self.active ==> self.hp >= 1
        &&& self.current_cooldown < self.shoot_cooldown
    }

    /// This enemy after taking `amount` damage: it is destroyed when the damage reaches
    /// its hit points (which then stay as they were), and otherwise loses that many.
    pub open spec fn after_damage(self, amount: u32) -> Enemy {
        if self.hp <= amount {
            Enemy { active: false, ..self }
        } else {
            Enemy { hp: (self.hp - amount) as u32, ..self }
        }
    }

    /// This enemy after one frame; `off_screen` tells whether its move left it below the
    /// screen. An inactive enemy does not change.
    pub open spec fn after_update(self, off_screen: bool) -> Enemy {
        if !self.active {
            self
        } else {
            Enemy { current_cooldown: tick(self.current_cooldown), active: !off_screen, ..self }
        }
    }

    /// The shot this enemy fires when it is on screen (`on_screen`) and the frame's
    /// chance came up (`chance`): one exactly when its weapon is ready.
    pub open spec fn shot(self, on_screen: bool, chance: bool) -> Option<ShotPattern> {
        if self.current_cooldown == 0 && on_screen && chance {
            Some(shot_pattern_of(self.enemy_type))
        } else {
            None
        }
    }

    /// Creates a new enemy; `initial_cooldown` is the frames before its first shot.
    pub fn new(enemy_type: EnemyType, initial_cooldown: u32) -> (enemy: Enemy)
        requires
            initial_cooldown < ENEMY_SHOOT_COOLDOWN,
        ensures
            enemy == initial_enemy(enemy_type, initial_cooldown),
            enemy.wf(),
    {
        Enemy {
            size: ENEMY_SIZE,
            hp: enemy_type.max_hp(),
            active: true,
            enemy_type,
            shoot_cooldown: ENEMY_SHOOT_COOLDOWN,
            current_cooldown: initial_cooldown,
        }
    }

    /// Take damage and check if destroyed.
    pub fn take_damage(&mut self, amount: u32)
        ensures
            *final(self) == old(self).after_damage(amount),
            old(self).wf() ==> final(self).wf(),
    {
        if self.hp <= amount {
            self.active = false;
        } else {
            self.hp = self.hp - amount;
        }
    }

    /// Check if enemy can shoot.
    pub fn can_shoot(&self) -> (ready: bool)
        ensures
            ready == (self.current_cooldown == 0),
    {
        self.current_cooldown == 0
    }

    /// Check if the enemy is active.
    pub fn is_active(&self) -> (active: bool)
        ensures
            active == self.active,
    {
        self.active
    }

    /// The enemy's type.
    pub fn enemy_type(&self) -> (t: EnemyType)
        ensures
            t == self.enemy_type,
    {
        self.enemy_type
    }

    /// Updates the enemy for one frame, after its ship moved; `off_screen` tells whether the
    /// move left it below the screen. An inactive enemy neither moves nor changes.
    pub fn update(&mut self, off_screen: bool)
        ensures
            *final(self) == old(self).after_update(off_screen),
            old(self).wf() ==> final(self).wf(),
    {
        if !self.active {
            return;
        }
        if self.current_cooldown > 0 {
            self.current_cooldown = self.current_cooldown - 1;
        }
        if off_screen {
            self.active = false;
        }
    }

    /// Decides whether the enemy fires this frame, and how.
    pub fn shoot(&self, on_screen: bool, chance: bool) -> (shot: Option<ShotPattern>)
        ensures
            shot == self.shot(on_screen, chance),
    {
        if self.can_shoot() && on_screen && chance {
            Some(self.enemy_type.shot_pattern())
        } else {
            None
        }
    }
}

/// Represents a bullet fired by player or enemy.
#[derive(Clone, Copy, PartialEq, Eq, Structural, Debug)]
pub struct Bullet {
    /// Size of the bullet, in pixels
    pub size: u32,
    /// Flag indicating if the bullet is active
    pub active: bool,
    /// Flag indicating if the bullet was fired by the player
    pub from_player: bool,
}

/// A freshly fired bullet.
pub open spec fn new_bullet(from_player: bool) -> Bullet {
    Bullet {
        size: if from_player { PLAYER_BULLET_SIZE } else { ENEMY_BULLET_SIZE },
        active: true,
        from_player,
    }
}

impl Bullet {
    /// This bullet after one frame; `off_screen` tells whether its move took it off
    /// the screen. An inactive bullet does not change.
    pub open spec fn after_update(self, off_screen: bool) -> Bullet {
        if !self.active {
            self
        } else {
            Bullet { active: !off_screen, ..self }
        }
    }

    /// Creates a new bullet; player bullets are slightly larger.
    pub fn new(from_player: bool) -> (bullet: Bullet)
        ensures
            bullet == new_bullet(from_player),
    {
        Bullet {
            size: if from_player { PLAYER_BULLET_SIZE } else { ENEMY_BULLET_SIZE },
            active: true,
            from_player,
        }
    }

    /// Creates a new player bullet (it moves upward).
    pub fn new_player_bullet() -> (bullet: Bullet)
        ensures
            bullet == new_bullet(true),
    {
        Self::new(true)
    }

    /// Creates a new enemy bullet (it moves downward).
    pub fn new_enemy_bullet() -> (bullet: Bullet)
        ensures
            bullet == new_bullet(false),
    {
        Self::new(false)
    }

    /// Creates a new enemy bullet aimed at a specific direction.
    pub fn new_aimed_enemy_bullet() -> (bullet: Bullet)
        ensures
            bullet == new_bullet(false),
    {
        Self::new(false)
    }

    /// Check if bullet was fired by player.
    pub fn is_from_player(&self) -> (b: bool)
        ensures
            b == self.from_player,
    {
        self.from_player
    }

    /// Check if the bullet is active.
    pub fn is_active(&self) -> (active: bool)
        ensures
            active == self.active,
    {
        self.active
    }

    /// Deactivate the bullet (e.g., when it hits something).
    pub fn deactivate(&mut self)
        ensures
            *final(self) == (Bullet { active: false, ..*old(self) }),
    {
        self.active = false;
    }

    /// Updates the bullet for one frame, after it moved; `off_screen` tells whether the move
    /// took it off the screen. An inactive bullet neither moves nor changes.
    pub fn update(&mut self, off_screen: bool)
        ensures
            *final(self) == old(self).after_update(off_screen),
    {
        if !self.active {
            return;
        }
        if off_screen {
            self.active = false;
        }
    }
}

/// Total damage in a sequence of hits.
pub open spec fn total_damage(hits: Seq<u32>) -> int
    decreases hits.len(),
{
    if hits.len() == 0 {
        0
    } else {
        total_damage(hits.drop_last()) + hits.last()
    }
}

/// An enemy after taking the hits in order.
pub open spec fn after_hits(enemy: Enemy, hits: Seq<u32>) -> Enemy
    decreases hits.len(),
{
    if hits.len() == 0 {
        enemy
    } else {
        after_hits(enemy, hits.drop_last()).after_damage(hits.last())
    }
}

/// Once the player's weapon has been fired, the player can shoot again after exactly
/// as many frames as the cooldown counter shows, and not before.
pub proof fn lemma_player_ready_after_cooldown(player: Player, frames: nat)
    ensures
        (player.after_updates(frames).current_cooldown == 0) <==> frames >= player.current_cooldown,
        player.after_updates(frames).current_cooldown == (if frames >= player.current_cooldown {
            0
        } else {
            player.current_cooldown - frames
        }),
    decreases frames,
{
    if frames > 0 {
        lemma_player_ready_after_cooldown(player.after_update(), (frames - 1) as nat);
    }
}

/// Firing (space with the weapon ready) makes the player wait exactly its shooting cooldown.
pub proof fn lemma_fire_starts_cooldown(player: Player, input: InputState)
    requires
        input.space_pressed,
        player.current_cooldown == 0,
    ensures
        player.after_input(input).current_cooldown == player.shoot_cooldown,
        forall|frames: nat|
            (#[trigger] player.after_input(input).after_updates(frames).current_cooldown == 0)
                <==> frames >= player.shoot_cooldown,
{
    assert forall|frames: nat|
        (#[trigger] player.after_input(input).after_updates(frames).current_cooldown == 0)
            <==> frames >= player.shoot_cooldown by {
        lemma_player_ready_after_cooldown(player.after_input(input), frames);
    }
}

/// An enemy stays active through a series of hits exactly while their total damage is
/// below the hit points it started with; once destroyed it never becomes active again.
pub proof fn lemma_enemy_survives_while_damage_below_hp(enemy: Enemy, hits: Seq<u32>)
    requires
        enemy.active,
        enemy.hp > 0,
    ensures
        after_hits(enemy, hits).active <==> total_damage(hits) < enemy.hp,
        after_hits(enemy, hits).active ==> after_hits(enemy, hits).hp == enemy.hp
            - total_damage(hits),
    decreases hits.len(),
{
    if hits.len() > 0 {
        lemma_enemy_survives_while_damage_below_hp(enemy, hits.drop_last());
        let before = after_hits(enemy, hits.drop_last());
        assert(after_hits(enemy, hits) == before.after_damage(hits.last()));
        assert(total_damage(hits) == total_damage(hits.drop_last()) + hits.last());
    } else {
        assert(after_hits(enemy, hits) == enemy);
        assert(total_damage(hits) == 0);
    }
}

/// An enemy of type `t` falls to exactly as many single-point hits as its type's hit points.
pub proof fn lemma_hits_to_destroy(t: EnemyType, cooldown: u32, hits: Seq<u32>)
    requires
        forall|i: int| 0 <= i < hits.len() ==> hits[i] == 1,
    ensures
        after_hits(initial_enemy(t, cooldown), hits).active <==> hits.len() < max_hp_of(t),
{
    lemma_total_of_unit_hits(hits);
    lemma_enemy_survives_while_damage_below_hp(initial_enemy(t, cooldown), hits);
}

/// The total of a series of single-point hits is their number.
proof fn lemma_total_of_unit_hits(hits: Seq<u32>)
    requires
        forall|i: int| 0 <= i < hits.len() ==> hits[i] == 1,
    ensures
        total_damage(hits) == hits.len(),
    decreases hits.len(),
{
    if hits.len() > 0 {
        lemma_total_of_unit_hits(hits.drop_last());
    }
}

/// A destroyed enemy or a spent bullet stays inactive: damage and frame updates never
/// bring it back.
pub proof fn lemma_inactive_is_final(enemy: Enemy, bullet: Bullet, amount: u32, off_screen: bool)
    requires
        !enemy.active,
        !bullet.active,
    ensures
        !enemy.after_damage(amount).active,
        enemy.after_update(off_screen) == enemy,
        bullet.after_update(off_screen) == bullet,
{
}

/// Well-formedness is kept by every step: players through input and frames, enemies through
/// damage and frames; every player `new` creates and every enemy created with a cooldown
/// below the shooting period is well-formed.
pub proof fn lemma_wf_preserved(
    player: Player,
    input: InputState,
    enemy: Enemy,
    amount: u32,
    off_screen: bool,
)
    ensures
        initial_player().wf(),
        player.wf() ==> player.after_input(input).wf() && player.after_update().wf(),
        enemy.wf() ==> enemy.after_damage(amount).wf() && enemy.after_update(off_screen).wf(),
        enemy.current_cooldown < ENEMY_SHOOT_COOLDOWN ==> initial_enemy(
            enemy.enemy_type,
            enemy.current_cooldown,
        ).wf(),
{
}

/// A frame update never changes an enemy's hit points, type, size or shooting period: only
/// its cooldown counter (down by one, to zero) and, for an active enemy, whether it is still on
/// screen.
pub proof fn lemma_enemy_update_keeps_damage(enemy: Enemy, off_screen: bool)
    ensures
        enemy.after_update(off_screen).hp == enemy.hp,
        enemy.after_update(off_screen).enemy_type == enemy.enemy_type,
        enemy.after_update(off_screen).size == enemy.size,
        enemy.after_update(off_screen).shoot_cooldown == enemy.shoot_cooldown,
        enemy.active ==> enemy.after_update(off_screen).active == !off_screen,
        enemy.active && enemy.current_cooldown > 0 ==> enemy.after_update(off_screen).current_cooldown
            == enemy.current_cooldown - 1,
        enemy.active && enemy.current_cooldown == 0 ==> enemy.after_update(off_screen).current_cooldown
            == 0,
{
}

/// Damage lasts across frames: an enemy hit on one frame and again on a later one, while it
/// stays on screen, is destroyed once the hits reach its hit points (a zigzag by two hits, a
/// follower by three).
pub proof fn lemma_damage_lasts_across_frames(t: EnemyType, cooldown: u32)
    ensures
        !initial_enemy(EnemyType::Zigzag, cooldown).after_damage(1).after_update(false).after_damage(
            1,
        ).active,
        !initial_enemy(EnemyType::Follower, cooldown).after_damage(1).after_update(false).after_damage(
            1,
        ).after_update(false).after_damage(1).active,
        initial_enemy(t, cooldown).after_damage(1).after_update(false).hp == if max_hp_of(t) > 1 {
            max_hp_of(t) - 1
        } else {
            max_hp_of(t) as int
        },
{
}

/// A bullet stays active while it stays on screen, whoever fired it, and changes nothing else;
/// leaving the screen retires it and changes nothing else.
pub proof fn lemma_bullet_flies_until_off_screen(bullet: Bullet)
    ensures
        bullet.after_update(false) == bullet,
        !bullet.after_update(true).active,
        bullet.after_update(true).from_player == bullet.from_player,
        bullet.after_update(true).size == bullet.size,
        new_bullet(true).after_update(false).active,
        new_bullet(false).after_update(false).active,
{
}

} // verus!
