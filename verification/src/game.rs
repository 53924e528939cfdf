//! The rules of a game: its states, input handling, collisions, scoring and spawning.
//!
//! Geometry stays with the caller: where an outcome depends on positions, the caller
//! passes what the geometry says (which entities overlap, which left the screen) and
//! the game decides the rest.
use vstd::prelude::*;
use crate::entity::{
    ENEMY_SHOOT_COOLDOWN, Bullet, Enemy, EnemyType, Player, ShotPattern, enemy_type_for_roll, initial_enemy,
    initial_player, new_bullet,
};
use crate::input::InputState;

verus! {

/// Game state representation.
#[derive(Clone, Copy, PartialEq, Eq, Structural, Debug)]
pub enum GameState {
    /// Game is in main menu
    MainMenu,
    /// Game is actively running
    Playing,
    /// Game is paused
    Paused,
    /// Game is over (player died)
    GameOver,
}

/// Points scored for each destroyed enemy.
pub const POINTS_PER_ENEMY: u32 = 100;

/// A formation may appear only while fewer enemies than this are on screen.
pub const FORMATION_ENEMY_LIMIT: usize = 5;
/// Height at which single enemies appear, in pixels (above the screen).
pub const ENEMY_SPAWN_Y: i32 = -30;
/// Single enemies appear at least this far from either side of the screen, in pixels.
pub const ENEMY_SPAWN_MARGIN: u32 = 20;
/// An enemy whose weapon is ready fires on one frame in this many, on average.
pub const ENEMY_FIRE_ODDS: u32 = 100;
/// A single enemy appears on one frame in this many, on average.
pub const ENEMY_SPAWN_ODDS: u32 = 50;
/// A formation appears on one frame in this many, on average (when allowed).
pub const FORMATION_ODDS: u32 = 200;
/// The number of enemy types and of formations that a roll chooses among.
pub const ROLL_CHOICES: u32 = 3;

/// The state of one game, without its drawing.
pub struct Game {
    /// Current game state
    pub state: GameState,
    /// Player entity
    pub player: Player,
    /// List of active enemies
    pub enemies: Vec<Enemy>,
    /// List of active bullets
    pub bullets: Vec<Bullet>,
    /// Current game score
    pub score: u32,
    /// Animation frame ID for the game loop
    pub animation_id: Option<i32>,
    /// Flag indicating if the game state is dirty and needs redrawing
    pub needs_redraw: bool,
}

/// What the caller has to do after the game read its input.
#[derive(Clone, Copy, PartialEq, Eq, Structural, Debug)]
pub struct InputOutcome {
    /// The game was reset: the player's ship goes back to its starting place
    pub reset: bool,
    /// The player's ship moves as the direction keys say
    pub move_player: bool,
    /// A player bullet was fired just above the ship
    pub player_bullet: bool,
}

/// What the geometry of one frame says about an enemy after its move.
#[derive(Clone, Copy, PartialEq, Eq, Structural, Debug)]
pub struct EnemyFrame {
    /// The enemy is below the bottom of the screen
    pub off_screen: bool,
    /// The enemy is below the top of the screen
    pub on_screen: bool,
    /// The frame's chance for the enemy to fire came up
    pub chance: bool,
}

/// Which entities overlap (their circles intersect), whether or not they are active.
pub struct Overlaps {
    /// `bullet_enemy[i][j]`: bullet `i` overlaps enemy `j`
    pub bullet_enemy: Vec<Vec<bool>>,
    /// `player_enemy[j]`: the player overlaps enemy `j`
    pub player_enemy: Vec<bool>,
    /// `player_bullet[i]`: the player overlaps bullet `i`
    pub player_bullet: Vec<bool>,
}

impl Overlaps {
    /// The bullet-enemy overlaps as rows of sequences.
    pub open spec fn rows(self) -> Seq<Seq<bool>> {
        self.bullet_enemy@.map_values(|row: Vec<bool>| row@)
    }

    /// The overlaps describe `bullets` bullets and `enemies` enemies.
    pub open spec fn fits(self, bullets: nat, enemies: nat) -> bool {
        &&& self.bullet_enemy@.len() == bullets
        &&& forall|i: int| 0 <= i < bullets ==> (#[trigger] self.bullet_enemy@[i])@.len() == enemies
        &&& self.player_enemy@.len() == enemies
        &&& self.player_bullet@.len() == bullets
    }
}

/// Whether space in state `s` starts play: from the menu, when paused (continuing), or after
/// a game over (restarting).
pub open spec fn space_starts(s: GameState) -> bool {
    s == GameState::MainMenu || s == GameState::Paused || s == GameState::GameOver
}

/// The state after the game read its input in state `s`: space starts the game from the
/// menu, continues it when paused and restarts it after a game over; escape during play
/// pauses it.
pub open spec fn state_after_input(s: GameState, input: InputState) -> GameState {
    let started = if input.space_pressed && space_starts(s) {
        GameState::Playing
    } else {
        s
    };
    if input.escape_pressed && started == GameState::Playing {
        GameState::Paused
    } else {
        started
    }
}

/// Whether reading `input` in state `s` asks for a redraw: whenever space starts play or
/// escape pauses it.
pub open spec fn input_redraws(s: GameState, input: InputState) -> bool {
    let started = if input.space_pressed && space_starts(s) {
        GameState::Playing
    } else {
        s
    };
    (input.space_pressed && space_starts(s)) || (input.escape_pressed && started
        == GameState::Playing)
}

/// What a frame asks of the caller after the game read its input.
#[derive(Clone, Copy, PartialEq, Eq, Structural, Debug)]
pub struct FrameStep {
    /// What reading the input asks for
    pub input: InputOutcome,
    /// The world (entities, collisions, spawning) is updated in this frame
    pub update_world: bool,
}

/// The state of a game as a value.
#[verifier::ext_equal]
pub struct GameView {
    /// Current game state
    pub state: GameState,
    /// Player entity
    pub player: Player,
    /// The enemies
    pub enemies: Seq<Enemy>,
    /// The bullets
    pub bullets: Seq<Bullet>,
    /// Current game score
    pub score: u32,
    /// Animation frame ID for the game loop
    pub animation_id: Option<i32>,
    /// The game needs redrawing
    pub needs_redraw: bool,
}

impl GameView {
    /// A well-formed game: its player and every enemy are well-formed.
    pub open spec fn wf(self) -> bool {
        &&& self.player.wf()
        &&& forall|j: int| 0 <= j < self.enemies.len() ==> #[trigger] self.enemies[j].wf()
    }
}

/// A game whose player and enemies are those of a well-formed game is well-formed.
pub proof fn lemma_wf_same_entities(a: GameView, b: GameView)
    requires
        a.wf(),
        b.player == a.player,
        b.enemies == a.enemies,
    ensures
        b.wf(),
{
    assert forall|j: int| 0 <= j < b.enemies.len() implies #[trigger] b.enemies[j].wf() by {
        assert(a.enemies[j].wf());
    }
}

impl View for Game {
    type V = GameView;

    open spec fn view(&self) -> GameView {
        GameView {
            state: self.state,
            player: self.player,
            enemies: self.enemies@,
            bullets: self.bullets@,
            score: self.score,
            animation_id: self.animation_id,
            needs_redraw: self.needs_redraw,
        }
    }
}

/// The game after it read `input`, and what the caller has to do: space restarts a game that
/// is over (resetting it), the state follows `state_after_input`, and when the game is played
/// afterwards the ship moves and, with space held and the weapon ready, fires a bullet before
/// the weapon's cooldown starts.
pub open spec fn input_step(g: GameView, input: InputState) -> (GameView, InputOutcome) {
    let reset = input.space_pressed && g.state == GameState::GameOver;
    let state = state_after_input(g.state, input);
    let moving = state == GameState::Playing;
    let base = if reset {
        initial_player()
    } else {
        g.player
    };
    let fires = moving && input.space_pressed && base.current_cooldown == 0;
    (
        GameView {
            state,
            player: if moving {
                base.after_input(input)
            } else {
                base
            },
            enemies: if reset {
                Seq::empty()
            } else {
                g.enemies
            },
            bullets: (if reset {
                Seq::empty()
            } else {
                g.bullets
            }) + (if fires {
                seq![new_bullet(true)]
            } else {
                Seq::empty()
            }),
            score: if reset {
                0
            } else {
                g.score
            },
            animation_id: g.animation_id,
            needs_redraw: g.needs_redraw || input_redraws(g.state, input),
        },
        InputOutcome { reset, move_player: moving, player_bullet: fires },
    )
}

/// Whether two entities collide: both are active and their circles overlap.
pub open spec fn collides(a_active: bool, b_active: bool, overlap: bool) -> bool {
    a_active && b_active && overlap
}

/// The first enemy, from index `from` on, that `bullet` collides with (`row` tells which
/// enemies the bullet overlaps).
pub open spec fn first_target(bullet: Bullet, enemies: Seq<Enemy>, row: Seq<bool>, from: int) -> Option<
    int,
>
    decreases enemies.len() - from,
{
    if from < 0 || from >= enemies.len() {
        None
    } else if collides(bullet.active, enemies[from].active, row[from]) {
        Some(from)
    } else {
        first_target(bullet, enemies, row, from + 1)
    }
}

/// Bullets, enemies and score during the resolution of a frame's hits.
pub struct Battle {
    /// The bullets
    pub bullets: Seq<Bullet>,
    /// The enemies
    pub enemies: Seq<Enemy>,
    /// The score
    pub score: int,
}

/// The battle after bullet `i` (with overlap row `row`) is resolved: a player bullet that
/// collides with an enemy is spent on the first such enemy, which takes one point of damage;
/// an enemy destroyed so scores its points.
pub open spec fn resolve_bullet(w: Battle, i: int, row: Seq<bool>) -> Battle {
    let b = w.bullets[i];
    if !b.from_player {
        w
    } else {
        match first_target(b, w.enemies, row, 0) {
            None => w,
            Some(k) => {
                let e = w.enemies[k].after_damage(1);
                Battle {
                    bullets: w.bullets.update(i, Bullet { active: false, ..b }),
                    enemies: w.enemies.update(k, e),
                    score: w.score + if e.active {
                        0
                    } else {
                        POINTS_PER_ENEMY as int
                    },
                }
            },
        }
    }
}

/// The battle after the first `n` bullets are resolved, in order.
pub open spec fn resolve_bullets(w: Battle, rows: Seq<Seq<bool>>, n: nat) -> Battle
    decreases n,
{
    if n == 0 {
        w
    } else {
        let prev = resolve_bullets(w, rows, (n - 1) as nat);
        resolve_bullet(prev, n - 1, rows[n - 1])
    }
}

/// The battle of a frame, with all bullets resolved.
pub open spec fn battle_of(
    bullets: Seq<Bullet>,
    enemies: Seq<Enemy>,
    score: int,
    rows: Seq<Seq<bool>>,
) -> Battle {
    resolve_bullets(Battle { bullets, enemies, score }, rows, bullets.len())
}

/// Whether the player collides with one of the enemies.
pub open spec fn player_hits_an_enemy(player: Player, enemies: Seq<Enemy>, by_enemy: Seq<bool>) -> bool {
    exists|j: int|
        #![trigger enemies[j]]
        0 <= j < enemies.len() && collides(player.active, enemies[j].active, by_enemy[j])
}

/// Whether the player collides with one of the enemy bullets.
pub open spec fn player_hits_an_enemy_bullet(
    player: Player,
    bullets: Seq<Bullet>,
    by_bullet: Seq<bool>,
) -> bool {
    exists|k: int|
        #![trigger bullets[k]]
        0 <= k < bullets.len() && !bullets[k].from_player && collides(
            player.active,
            bullets[k].active,
            by_bullet[k],
        )
}

/// Whether the player collides with an enemy or with an enemy bullet.
pub open spec fn player_struck(
    player: Player,
    enemies: Seq<Enemy>,
    bullets: Seq<Bullet>,
    by_enemy: Seq<bool>,
    by_bullet: Seq<bool>,
) -> bool {
    player_hits_an_enemy(player, enemies, by_enemy) || player_hits_an_enemy_bullet(
        player,
        bullets,
        by_bullet,
    )
}

/// The number of enemies active in `before` and no longer active in `after`.
pub open spec fn count_destroyed(before: Seq<Enemy>, after: Seq<Enemy>) -> nat
    decreases before.len(),
{
    if before.len() == 0 {
        0
    } else {
        count_destroyed(before.drop_last(), after.take(before.len() - 1)) + if before.last().active
            && !after[before.len() - 1].active {
            1nat
        } else {
            0nat
        }
    }
}

/// Which enemies are active.
pub open spec fn enemy_flags(enemies: Seq<Enemy>) -> Seq<bool> {
    enemies.map_values(|e: Enemy| e.active)
}

/// Which bullets are active.
pub open spec fn bullet_flags(bullets: Seq<Bullet>) -> Seq<bool> {
    bullets.map_values(|b: Bullet| b.active)
}

/// The items whose flag is set, in their order.
pub open spec fn kept_items<T>(items: Seq<T>, keep: Seq<bool>) -> Seq<T>
    decreases items.len(),
{
    if items.len() == 0 {
        Seq::empty()
    } else {
        kept_items(items.drop_last(), keep.take(items.len() - 1)) + if keep[items.len() - 1] {
            seq![items.last()]
        } else {
            Seq::empty()
        }
    }
}

/// The bullets that the shots of a frame add, in order: one enemy bullet per shot.
pub open spec fn shot_bullets(shots: Seq<Option<ShotPattern>>) -> Seq<Bullet>
    decreases shots.len(),
{
    if shots.len() == 0 {
        Seq::empty()
    } else {
        shot_bullets(shots.drop_last()) + if shots.last() is Some {
            seq![new_bullet(false)]
        } else {
            Seq::empty()
        }
    }
}

/// Formations in which groups of enemies appear.
#[derive(Clone, Copy, PartialEq, Eq, Structural, Debug)]
pub enum Formation {
    /// Five basic enemies in a V, its point lowest
    V,
    /// Five zigzag enemies in a row across the screen
    Line,
    /// Four followers in a diamond
    Diamond,
}

/// Where a formation places an enemy horizontally.
#[derive(Clone, Copy, PartialEq, Eq, Structural, Debug)]
pub enum SlotX {
    /// This many pixels right of the screen's center (left if negative)
    FromCenter(i32),
    /// At this many sixths of the screen's width
    Column(u32),
}

/// The place and type of one enemy of a formation.
#[derive(Clone, Copy, PartialEq, Eq, Structural, Debug)]
pub struct FormationSlot {
    /// Horizontal place
    pub x: SlotX,
    /// Vertical place, in pixels (negative: above the screen)
    pub y: i32,
    /// Type of the enemy
    pub enemy_type: EnemyType,
}

/// The formation that a roll in `0..3` selects; larger rolls select the diamond.
pub open spec fn formation_for_roll(roll: u32) -> Formation {
    if roll == 0 {
        Formation::V
    } else if roll == 1 {
        Formation::Line
    } else {
        Formation::Diamond
    }
}

/// Slot `i` (in `-2..=2`) of the V formation.
pub open spec fn v_slot(i: int) -> FormationSlot {
    FormationSlot {
        x: SlotX::FromCenter((40 * i) as i32),
        y: (-30 - 20 * (if i < 0 {
            -i
        } else {
            i
        })) as i32,
        enemy_type: EnemyType::Basic,
    }
}

/// Slot `i` (in `1..=5`) of the line formation.
pub open spec fn line_slot(i: int) -> FormationSlot {
    FormationSlot { x: SlotX::Column(i as u32), y: -30i32, enemy_type: EnemyType::Zigzag }
}

/// The slots of a formation, in the order its enemies appear.
pub open spec fn formation_layout(f: Formation) -> Seq<FormationSlot> {
    match f {
        Formation::V => Seq::new(5, |k: int| v_slot(k - 2)),
        Formation::Line => Seq::new(5, |k: int| line_slot(k + 1)),
        Formation::Diamond => seq![
            FormationSlot { x: SlotX::FromCenter(0i32), y: -70i32, enemy_type: EnemyType::Follower },
            FormationSlot { x: SlotX::FromCenter(-40i32), y: -30i32, enemy_type: EnemyType::Follower },
            FormationSlot { x: SlotX::FromCenter(40i32), y: -30i32, enemy_type: EnemyType::Follower },
            FormationSlot { x: SlotX::FromCenter(0i32), y: 10i32, enemy_type: EnemyType::Follower },
        ],
    }
}

/// The enemies that a formation brings, with their weapon cooldowns.
pub open spec fn formation_enemies(f: Formation, cooldowns: Seq<u32>) -> Seq<Enemy> {
    Seq::new(
        formation_layout(f).len(),
        |i: int| initial_enemy(formation_layout(f)[i].enemy_type, cooldowns[i]),
    )
}

impl Formation {
    /// The formation that a roll in `0..3` selects (0: V, 1: line, otherwise diamond).
    pub fn from_roll(roll: u32) -> (f: Formation)
        ensures
            f == formation_for_roll(roll),
    {
        if roll == 0 {
            Formation::V
        } else if roll == 1 {
            Formation::Line
        } else {
            Formation::Diamond
        }
    }

    /// The number of enemies in this formation.
    pub fn size(self) -> (n: usize)
        ensures
            n == formation_layout(self).len(),
    {
        match self {
            Formation::V => 5,
            Formation::Line => 5,
            Formation::Diamond => 4,
        }
    }

    /// The slots of this formation, in the order its enemies appear.
    pub fn layout(self) -> (slots: Vec<FormationSlot>)
        ensures
            slots@ == formation_layout(self),
    {
        let mut slots: Vec<FormationSlot> = Vec::new();
        match self {
            Formation::V => {
                let mut i: i32 = -2;
                while i <= 2
                    invariant
                        -2 <= i <= 3,
                        slots@.len() == i + 2,
                        forall|k: int| 0 <= k < slots@.len() ==> slots@[k] == v_slot(k - 2),
                    decreases 3 - i,
                {
                    let depth: i32 = if i < 0 {
                        -i
                    } else {
                        i
                    };
                    slots.push(
                        FormationSlot {
                            x: SlotX::FromCenter(40 * i),
                            y: -30 - 20 * depth,
                            enemy_type: EnemyType::Basic,
                        },
                    );
                    i = i + 1;
                }
                assert(slots@ =~= formation_layout(self));
            },
            Formation::Line => {
                let mut i: u32 = 1;
                while i <= 5
                    invariant
                        1 <= i <= 6,
                        slots@.len() == i - 1,
                        forall|k: int| 0 <= k < slots@.len() ==> slots@[k] == line_slot(k + 1),
                    decreases 6 - i,
                {
                    slots.push(
                        FormationSlot { x: SlotX::Column(i), y: -30, enemy_type: EnemyType::Zigzag },
                    );
                    i = i + 1;
                }
                assert(slots@ =~= formation_layout(self));
            },
            Formation::Diamond => {
                slots.push(
                    FormationSlot {
                        x: SlotX::FromCenter(0),
                        y: -70,
                        enemy_type: EnemyType::Follower,
                    },
                );
                slots.push(
                    FormationSlot {
                        x: SlotX::FromCenter(-40),
                        y: -30,
                        enemy_type: EnemyType::Follower,
                    },
                );
                slots.push(
                    FormationSlot {
                        x: SlotX::FromCenter(40),
                        y: -30,
                        enemy_type: EnemyType::Follower,
                    },
                );
                slots.push(
                    FormationSlot { x: SlotX::FromCenter(0), y: 10, enemy_type: EnemyType::Follower },
                );
                assert(slots@ =~= formation_layout(self));
            },
        }
        slots
    }
}

/// Keeps the items whose flag is set, in their order.
pub fn retain_flagged<T>(items: &mut Vec<T>, keep: &Vec<bool>)
    requires
        keep@.len() == old(items)@.len(),
    ensures
        final(items)@ == kept_items(old(items)@, keep@),
{
    let ghost initial = items@;
    let n = keep.len();
    let mut j: usize = 0;
    let mut i: usize = 0;
    while j < n
        invariant
            n == keep@.len(),
            n == initial.len(),
            j <= n,
            i <= j,
            items@ == kept_items(initial.take(j as int), keep@.take(j as int)) + initial.skip(
                j as int,
            ),
            i == kept_items(initial.take(j as int), keep@.take(j as int)).len(),
        decreases n - j,
    {
        assert(initial.take(j + 1).drop_last() =~= initial.take(j as int));
        assert(keep@.take(j + 1).take(j as int) =~= keep@.take(j as int));
        assert(initial.take(j + 1).last() == initial[j as int]);
        assert(items@[i as int] == initial[j as int]);
        if keep[j] {
            i = i + 1;
            assert(items@ =~= kept_items(initial.take(j + 1), keep@.take(j + 1))
                + initial.skip(j + 1));
        } else {
            items.remove(i);
            assert(items@ =~= kept_items(initial.take(j + 1), keep@.take(j + 1))
                + initial.skip(j + 1));
        }
        j = j + 1;
    }
    assert(initial.take(n as int) =~= initial);
    assert(keep@.take(n as int) =~= keep@);
    assert(initial.skip(n as int) =~= Seq::<T>::empty());
    assert(items@ =~= kept_items(initial, keep@));
}

/// The first enemy that `bullet` collides with, if any.
fn find_target(bullet: &Bullet, enemies: &Vec<Enemy>, row: &Vec<bool>) -> (target: Option<usize>)
    requires
        row@.len() == enemies@.len(),
    ensures
        match target {
            Some(k) => k < enemies@.len() && first_target(*bullet, enemies@, row@, 0) == Some(k as int),
            None => first_target(*bullet, enemies@, row@, 0) is None,
        },
{
    let n = enemies.len();
    let mut j: usize = 0;
    while j < n
        invariant
            n == enemies@.len(),
            n == row@.len(),
            j <= n,
            first_target(*bullet, enemies@, row@, 0) == first_target(
                *bullet,
                enemies@,
                row@,
                j as int,
            ),
        decreases n - j,
    {
        if bullet.active && enemies[j].active && row[j] {
            return Some(j);
        }
        j = j + 1;
    }
    None
}

/// Copies a vector of copyable items.
fn copy_vec<T: Copy>(items: &Vec<T>) -> (copy: Vec<T>)
    ensures
        copy@ == items@,
{
    let mut copy: Vec<T> = Vec::new();
    let n = items.len();
    let mut i: usize = 0;
    while i < n
        invariant
            n == items@.len(),
            i <= n,
            copy@ == items@.take(i as int),
        decreases n - i,
    {
        copy.push(items[i]);
        i = i + 1;
        assert(copy@ =~= items@.take(i as int));
    }
    assert(items@.take(n as int) =~= items@);
    copy
}

impl Game {
    /// Creates a new game at the main menu.
    pub fn new() -> (game: Game)
        ensures
            game@.wf(),
            game.state == GameState::MainMenu,
            game.player == initial_player(),
            game.enemies@.len() == 0,
            game.bullets@.len() == 0,
            game.score == 0,
            game.animation_id is None,
            game.needs_redraw,
    {
        Game {
            state: GameState::MainMenu,
            player: Player::new(),
            enemies: Vec::new(),
            bullets: Vec::new(),
            score: 0,
            animation_id: None,
            needs_redraw: true,
        }
    }

    /// Whether the game is running (frames update it).
    pub fn is_playing(&self) -> (playing: bool)
        ensures
            playing == (self.state == GameState::Playing),
    {
        self.state == GameState::Playing
    }

    /// Marks the game for redrawing (after a frame updated it).
    pub fn request_redraw(&mut self)
        ensures
            old(self)@.wf() ==> final(self)@.wf(),
            final(self).needs_redraw,
            final(self).state == old(self).state,
            final(self).player == old(self).player,
            final(self).enemies@ == old(self).enemies@,
            final(self).bullets@ == old(self).bullets@,
            final(self).score == old(self).score,
            final(self).animation_id == old(self).animation_id,
    {
        self.needs_redraw = true;
        proof {
            if old(self)@.wf() {
                lemma_wf_same_entities(old(self)@, self@);
            }
        }
    }

    /// Returns whether the game needs redrawing and clears the flag.
    pub fn take_redraw(&mut self) -> (redraw: bool)
        ensures
            old(self)@.wf() ==> final(self)@.wf(),
            redraw == old(self).needs_redraw,
            !final(self).needs_redraw,
            final(self).state == old(self).state,
            final(self).player == old(self).player,
            final(self).enemies@ == old(self).enemies@,
            final(self).bullets@ == old(self).bullets@,
            final(self).score == old(self).score,
            final(self).animation_id == old(self).animation_id,
    {
        let redraw = self.needs_redraw;
        self.needs_redraw = false;
        proof {
            if old(self)@.wf() {
                lemma_wf_same_entities(old(self)@, self@);
            }
        }
        redraw
    }

    /// Resets the game to its initial state (the game state itself is kept).
    pub fn reset_game(&mut self)
        ensures
            old(self)@.wf() ==> final(self)@.wf(),
            final(self).state == old(self).state,
            final(self).player == initial_player(),
            final(self).enemies@.len() == 0,
            final(self).bullets@.len() == 0,
            final(self).score == 0,
            final(self).animation_id == old(self).animation_id,
            final(self).needs_redraw,
    {
        self.enemies.clear();
        self.bullets.clear();
        self.score = 0;
        self.player = Player::new();
        self.needs_redraw = true;
    }

    /// Handles game over state.
    pub fn game_over(&mut self)
        ensures
            old(self)@.wf() ==> final(self)@.wf(),
            final(self).state == GameState::GameOver,
            final(self).needs_redraw,
            final(self).player == old(self).player,
            final(self).enemies@ == old(self).enemies@,
            final(self).bullets@ == old(self).bullets@,
            final(self).score == old(self).score,
            final(self).animation_id == old(self).animation_id,
    {
        self.state = GameState::GameOver;
        self.needs_redraw = true;
        proof {
            if old(self)@.wf() {
                lemma_wf_same_entities(old(self)@, self@);
            }
        }
    }

    /// Handles player input: space starts the game from the menu, continues it when paused
    /// and restarts it after a game over (resetting it), escape during play pauses it, and
    /// during play
    /// the player's ship moves and, when space is held with the weapon ready, fires a bullet
    /// just above itself, after which the weapon's cooldown starts.
    pub fn handle_input(&mut self, input: &InputState) -> (outcome: InputOutcome)
        ensures
            old(self)@.wf() ==> final(self)@.wf(),
            final(self)@ == input_step(old(self)@, *input).0,
            outcome == input_step(old(self)@, *input).1,
            outcome.player_bullet ==> final(self).player.current_cooldown
                == final(self).player.shoot_cooldown,
    {
        let mut outcome = InputOutcome { reset: false, move_player: false, player_bullet: false };
        if input.space_pressed {
            match self.state {
                GameState::MainMenu => {
                    self.state = GameState::Playing;
                    self.needs_redraw = true;
                },
                GameState::Paused => {
                    self.state = GameState::Playing;
                    self.needs_redraw = true;
                },
                GameState::GameOver => {
                    self.reset_game();
                    self.state = GameState::Playing;
                    self.needs_redraw = true;
                    outcome.reset = true;
                },
                GameState::Playing => {},
            }
        }
        if input.escape_pressed && self.state == GameState::Playing {
            self.state = GameState::Paused;
            self.needs_redraw = true;
            proof {
                assert(self.bullets@ =~= input_step(old(self)@, *input).0.bullets);
                assert(self.enemies@ =~= input_step(old(self)@, *input).0.enemies);
                assert(self@ =~= input_step(old(self)@, *input).0);
            }
            return outcome;
        }
        if self.state == GameState::Playing {
            outcome.move_player = true;
            if input.space_pressed && self.player.can_shoot() {
                self.bullets.push(Bullet::new_player_bullet());
                outcome.player_bullet = true;
            }
            self.player.handle_input(input);
        }
        proof {
            assert(self.bullets@ =~= input_step(old(self)@, *input).0.bullets);
            assert(self.enemies@ =~= input_step(old(self)@, *input).0.enemies);
            assert(self@ =~= input_step(old(self)@, *input).0);
        }
        outcome
    }

    /// Starts a frame: the input is read in every state, and the world (entities, collisions,
    /// spawning) is to be updated in this frame exactly when the game was being played as the
    /// frame began; such a frame is marked for redrawing.
    pub fn begin_frame(&mut self, input: &InputState) -> (step: FrameStep)
        ensures
            old(self)@.wf() ==> final(self)@.wf(),
            step.input == input_step(old(self)@, *input).1,
            step.update_world == (old(self).state == GameState::Playing),
            final(self)@ == (if step.update_world {
                GameView { needs_redraw: true, ..input_step(old(self)@, *input).0 }
            } else {
                input_step(old(self)@, *input).0
            }),
    {
        let update_world = self.state == GameState::Playing;
        let outcome = self.handle_input(input);
        if update_world {
            self.request_redraw();
        }
        proof {
            assert(self.bullets@ =~= input_step(old(self)@, *input).0.bullets);
            assert(self.enemies@ =~= input_step(old(self)@, *input).0.enemies);
        }
        FrameStep { input: outcome, update_world }
    }

    /// Updates the bullets for one frame, after they moved: `off_screen[i]` tells whether
    /// bullet `i` left the screen.
    pub fn update_bullets(&mut self, off_screen: &Vec<bool>)
        requires
            off_screen@.len() == old(self).bullets@.len(),
        ensures
            old(self)@.wf() ==> final(self)@.wf(),
            final(self).bullets@.len() == old(self).bullets@.len(),
            forall|i: int|
                0 <= i < old(self).bullets@.len() ==> #[trigger] final(self).bullets@[i] == old(self).bullets@[i].after_update(off_screen@[i]),
            final(self).state == old(self).state,
            final(self).player == old(self).player,
            final(self).enemies@ == old(self).enemies@,
            final(self).score == old(self).score,
            final(self).animation_id == old(self).animation_id,
            final(self).needs_redraw == old(self).needs_redraw,
    {
        let n = self.bullets.len();
        let mut i: usize = 0;
        while i < n
            invariant
                n == self.bullets@.len(),
                n == off_screen@.len(),
                n == old(self).bullets@.len(),
                i <= n,
                forall|k: int|
                    0 <= k < i ==> #[trigger] self.bullets@[k] == old(self).bullets@[k].after_update(
                        off_screen@[k],
                    ),
                forall|k: int| i <= k < n ==> #[trigger] self.bullets@[k] == old(self).bullets@[k],
                self.state == old(self).state,
                self.player == old(self).player,
                self.enemies@ == old(self).enemies@,
                self.score == old(self).score,
                self.animation_id == old(self).animation_id,
                self.needs_redraw == old(self).needs_redraw,
            decreases n - i,
        {
            let mut bullet = self.bullets[i];
            bullet.update(off_screen[i]);
            self.bullets.set(i, bullet);
            i = i + 1;
        }
        proof {
            if old(self)@.wf() {
                lemma_wf_same_entities(old(self)@, self@);
            }
        }
    }

    /// Updates the enemies for one frame, after they moved, and lets them fire: `frames[i]`
    /// tells what the geometry and the frame's chance say of enemy `i`. Returns each enemy's
    /// shot; every shot adds an enemy bullet, in the order of the enemies.
    pub fn update_enemies(&mut self, frames: &Vec<EnemyFrame>) -> (shots: Vec<Option<ShotPattern>>)
        requires
            frames@.len() == old(self).enemies@.len(),
        ensures
            old(self)@.wf() ==> final(self)@.wf(),
            final(self).enemies@.len() == old(self).enemies@.len(),
            shots@.len() == old(self).enemies@.len(),
            forall|i: int|
                0 <= i < old(self).enemies@.len() ==> #[trigger] final(self).enemies@[i] == old(self).enemies@[i].after_update(frames@[i].off_screen),
            forall|i: int|
                0 <= i < old(self).enemies@.len() ==> #[trigger] shots@[i] == final(self).enemies@[i].shot(frames@[i].on_screen, frames@[i].chance),
            final(self).bullets@ == old(self).bullets@ + shot_bullets(shots@),
            final(self).state == old(self).state,
            final(self).player == old(self).player,
            final(self).score == old(self).score,
            final(self).animation_id == old(self).animation_id,
            final(self).needs_redraw == old(self).needs_redraw,
    {
        let n = self.enemies.len();
        let mut shots: Vec<Option<ShotPattern>> = Vec::new();
        let mut i: usize = 0;
        while i < n
            invariant
                n == self.enemies@.len(),
                n == frames@.len(),
                n == old(self).enemies@.len(),
                i <= n,
                shots@.len() == i,
                forall|k: int|
                    0 <= k < i ==> #[trigger] self.enemies@[k] == old(self).enemies@[k].after_update(
                        frames@[k].off_screen,
                    ),
                forall|k: int| i <= k < n ==> #[trigger] self.enemies@[k] == old(self).enemies@[k],
                forall|k: int|
                    0 <= k < i ==> #[trigger] shots@[k] == self.enemies@[k].shot(
                        frames@[k].on_screen,
                        frames@[k].chance,
                    ),
                self.bullets@ == old(self).bullets@ + shot_bullets(shots@),
                self.state == old(self).state,
                self.player == old(self).player,
                self.score == old(self).score,
                self.animation_id == old(self).animation_id,
                self.needs_redraw == old(self).needs_redraw,
            decreases n - i,
        {
            let mut enemy = self.enemies[i];
            enemy.update(frames[i].off_screen);
            self.enemies.set(i, enemy);
            let shot = enemy.shoot(frames[i].on_screen, frames[i].chance);
            let ghost shots_before = shots@;
            shots.push(shot);
            assert(shots@.drop_last() =~= shots_before);
            if shot.is_some() {
                self.bullets.push(Bullet::new_enemy_bullet());
            }
            assert(self.bullets@ =~= old(self).bullets@ + shot_bullets(shots@));
            i = i + 1;
        }
        proof {
            if old(self)@.wf() {
                assert forall|j: int| 0 <= j < self@.enemies.len() implies #[trigger] self@.enemies[j].wf() by {
                    assert(old(self)@.enemies[j].wf());
                }
            }
        }
        shots
    }

    /// Resolves the frame's player bullets against the enemies (the score is left as it is)
    /// and returns the number of enemies destroyed.
    fn resolve_hits(&mut self, rows: &Vec<Vec<bool>>) -> (destroyed: usize)
        requires
            rows@.len() == old(self).bullets@.len(),
            forall|i: int|
                0 <= i < rows@.len() ==> (#[trigger] rows@[i])@.len() == old(self).enemies@.len(),
        ensures
            ({
                let w = battle_of(
                    old(self).bullets@,
                    old(self).enemies@,
                    0,
                    rows@.map_values(|row: Vec<bool>| row@),
                );
                &&& final(self).bullets@ == w.bullets
                &&& final(self).enemies@ == w.enemies
                &&& w.score == POINTS_PER_ENEMY * destroyed
            }),
            destroyed <= old(self).enemies@.len(),
            final(self).state == old(self).state,
            final(self).player == old(self).player,
            final(self).score == old(self).score,
            final(self).animation_id == old(self).animation_id,
            final(self).needs_redraw == old(self).needs_redraw,
    {
        let ghost views = rows@.map_values(|row: Vec<bool>| row@);
        let ghost start = Battle { bullets: self.bullets@, enemies: self.enemies@, score: 0 };
        let n = self.bullets.len();
        let mut destroyed: usize = 0;
        let mut i: usize = 0;
        while i < n
            invariant
                n == old(self).bullets@.len(),
                n == rows@.len(),
                views == rows@.map_values(|row: Vec<bool>| row@),
                start == (Battle { bullets: old(self).bullets@, enemies: old(self).enemies@, score: 0 }),
                forall|k: int|
                    0 <= k < rows@.len() ==> (#[trigger] rows@[k])@.len()
                        == old(self).enemies@.len(),
                i <= n,
                self.bullets@.len() == n,
                self.enemies@.len() == old(self).enemies@.len(),
                resolve_bullets(start, views, i as nat) == (Battle {
                    bullets: self.bullets@,
                    enemies: self.enemies@,
                    score: POINTS_PER_ENEMY * destroyed,
                }),
                destroyed <= old(self).enemies@.len(),
                self.state == old(self).state,
                self.player == old(self).player,
                self.score == old(self).score,
                self.animation_id == old(self).animation_id,
                self.needs_redraw == old(self).needs_redraw,
            decreases n - i,
        {
            proof {
                lemma_resolution_shape(start, views, (i + 1) as nat);
                lemma_resolution_counts_destroyed(start, views, (i + 1) as nat);
                lemma_count_destroyed_bounded(
                    start.enemies,
                    resolve_bullets(start, views, (i + 1) as nat).enemies,
                );
            }
            let bullet = self.bullets[i];
            if bullet.from_player {
                assert(views[i as int] == rows@[i as int]@);
                match find_target(&bullet, &self.enemies, &rows[i]) {
                    Some(k) => {
                        let mut spent = bullet;
                        spent.deactivate();
                        self.bullets.set(i, spent);
                        let mut enemy = self.enemies[k];
                        enemy.take_damage(1);
                        self.enemies.set(k, enemy);
                        if !enemy.is_active() {
                            assert(resolve_bullets(start, views, (i + 1) as nat).score
                                == POINTS_PER_ENEMY * (destroyed + 1));
                            assert(destroyed + 1 <= self.enemies.len());
                            destroyed = destroyed + 1;
                        }
                    },
                    None => {},
                }
            }
            i = i + 1;
        }
        proof {
            lemma_resolution_counts_destroyed(start, views, n as nat);
        }
        destroyed
    }

    /// Whether the points of the enemies that the frame's collisions destroy still fit in
    /// the score.
    pub fn collision_score_fits(&self, overlaps: &Overlaps) -> (fits: bool)
        requires
            overlaps.fits(self.bullets@.len(), self.enemies@.len()),
        ensures
            fits == (battle_of(self.bullets@, self.enemies@, self.score as int, overlaps.rows()).score
                <= u32::MAX),
    {
        let mut trial = Game {
            state: self.state,
            player: self.player,
            enemies: copy_vec(&self.enemies),
            bullets: copy_vec(&self.bullets),
            score: self.score,
            animation_id: self.animation_id,
            needs_redraw: self.needs_redraw,
        };
        let destroyed = trial.resolve_hits(&overlaps.bullet_enemy);
        proof {
            lemma_resolution_score_offset(
                Battle { bullets: self.bullets@, enemies: self.enemies@, score: 0 },
                overlaps.rows(),
                self.bullets@.len(),
                self.score as int,
            );
        }
        destroyed <= ((u32::MAX - self.score) / POINTS_PER_ENEMY) as usize
    }

    /// Whether the player collides with an enemy.
    fn player_hits_enemy(&self, by_enemy: &Vec<bool>) -> (hit: bool)
        requires
            by_enemy@.len() == self.enemies@.len(),
        ensures
            hit == player_hits_an_enemy(self.player, self.enemies@, by_enemy@),
    {
        let n = self.enemies.len();
        let mut j: usize = 0;
        while j < n
            invariant
                n == self.enemies@.len(),
                n == by_enemy@.len(),
                j <= n,
                forall|k: int|
                    0 <= k < j ==> !#[trigger] collides(
                        self.player.active,
                        self.enemies@[k].active,
                        by_enemy@[k],
                    ),
            decreases n - j,
        {
            if self.player.is_active() && self.enemies[j].is_active() && by_enemy[j] {
                assert(collides(self.player.active, self.enemies@[j as int].active, by_enemy@[j as int]));
                return true;
            }
            j = j + 1;
        }
        false
    }

    /// Whether the player collides with an enemy bullet.
    fn player_hits_enemy_bullet(&self, by_bullet: &Vec<bool>) -> (hit: bool)
        requires
            by_bullet@.len() == self.bullets@.len(),
        ensures
            hit == player_hits_an_enemy_bullet(self.player, self.bullets@, by_bullet@),
    {
        let n = self.bullets.len();
        let mut k: usize = 0;
        while k < n
            invariant
                n == self.bullets@.len(),
                n == by_bullet@.len(),
                k <= n,
                forall|m: int|
                    0 <= m < k ==> !(!self.bullets@[m].from_player && #[trigger] collides(
                        self.player.active,
                        self.bullets@[m].active,
                        by_bullet@[m],
                    )),
            decreases n - k,
        {
            if !self.bullets[k].is_from_player() && self.player.is_active()
                && self.bullets[k].is_active() && by_bullet[k] {
                assert(collides(self.player.active, self.bullets@[k as int].active, by_bullet@[k as int]));
                return true;
            }
            k = k + 1;
        }
        false
    }

    /// Checks for collisions between game entities: each player bullet is spent on the first
    /// enemy it collides with, which takes one point of damage (a destroyed enemy scores its
    /// points); then the game is over if the player collides with an enemy or an enemy bullet.
    pub fn check_collisions(&mut self, overlaps: &Overlaps)
        requires
            overlaps.fits(old(self).bullets@.len(), old(self).enemies@.len()),
            battle_of(
                old(self).bullets@,
                old(self).enemies@,
                old(self).score as int,
                overlaps.rows(),
            ).score <= u32::MAX,
        ensures
            old(self)@.wf() ==> final(self)@.wf(),
            ({
                let w = battle_of(
                    old(self).bullets@,
                    old(self).enemies@,
                    old(self).score as int,
                    overlaps.rows(),
                );
                let struck = player_struck(
                    old(self).player,
                    w.enemies,
                    w.bullets,
                    overlaps.player_enemy@,
                    overlaps.player_bullet@,
                );
                &&& final(self).bullets@ == w.bullets
                &&& final(self).enemies@ == w.enemies
                &&& final(self).score == w.score
                &&& final(self).state == (if struck {
                    GameState::GameOver
                } else {
                    old(self).state
                })
                &&& final(self).needs_redraw == (old(self).needs_redraw || struck)
            }),
            final(self).player == old(self).player,
            final(self).animation_id == old(self).animation_id,
    {
        let destroyed = self.resolve_hits(&overlaps.bullet_enemy);
        proof {
            lemma_resolution_score_offset(
                Battle { bullets: old(self).bullets@, enemies: old(self).enemies@, score: 0 },
                overlaps.rows(),
                old(self).bullets@.len(),
                old(self).score as int,
            );
            lemma_resolution_shape(
                Battle { bullets: old(self).bullets@, enemies: old(self).enemies@, score: 0 },
                overlaps.rows(),
                old(self).bullets@.len(),
            );
        }
        self.score = self.score + (destroyed as u32) * POINTS_PER_ENEMY;
        let ghost w = battle_of(
            old(self).bullets@,
            old(self).enemies@,
            old(self).score as int,
            overlaps.rows(),
        );
        assert(self.enemies@ == w.enemies);
        assert(self.bullets@ == w.bullets);
        let by_enemy = self.player_hits_enemy(&overlaps.player_enemy);
        let by_bullet = self.player_hits_enemy_bullet(&overlaps.player_bullet);
        assert((by_enemy || by_bullet) == player_struck(
            old(self).player,
            w.enemies,
            w.bullets,
            overlaps.player_enemy@,
            overlaps.player_bullet@,
        ));
        if by_enemy {
            self.game_over();
        }
        if by_bullet {
            self.game_over();
        }
        proof {
            if old(self)@.wf() {
                assert forall|j: int| 0 <= j < old(self).enemies@.len() implies #[trigger] old(self).enemies@[j].wf() by {
                    assert(old(self)@.enemies[j].wf());
                }
                lemma_resolution_keeps_wf(
                    Battle { bullets: old(self).bullets@, enemies: old(self).enemies@, score: old(self).score as int },
                    overlaps.rows(),
                    old(self).bullets@.len(),
                );
                assert forall|j: int| 0 <= j < self@.enemies.len() implies #[trigger] self@.enemies[j].wf() by {
                    assert(w.enemies[j].wf());
                }
            }
        }
    }

    /// Removes the spent bullets and the destroyed or departed enemies, keeping the order of
    /// the others. Returns which bullets and which enemies were kept.
    pub fn remove_inactive(&mut self) -> (kept: (Vec<bool>, Vec<bool>))
        ensures
            old(self)@.wf() ==> final(self)@.wf(),
            kept.0@ == bullet_flags(old(self).bullets@),
            kept.1@ == enemy_flags(old(self).enemies@),
            final(self).bullets@ == kept_items(old(self).bullets@, kept.0@),
            final(self).enemies@ == kept_items(old(self).enemies@, kept.1@),
            final(self).state == old(self).state,
            final(self).player == old(self).player,
            final(self).score == old(self).score,
            final(self).animation_id == old(self).animation_id,
            final(self).needs_redraw == old(self).needs_redraw,
    {
        let mut bullet_flags: Vec<bool> = Vec::new();
        let nb = self.bullets.len();
        let mut i: usize = 0;
        while i < nb
            invariant
                nb == self.bullets@.len(),
                i <= nb,
                bullet_flags@ == self.bullets@.take(i as int).map_values(|b: Bullet| b.active),
            decreases nb - i,
        {
            bullet_flags.push(self.bullets[i].is_active());
            i = i + 1;
            assert(bullet_flags@ =~= self.bullets@.take(i as int).map_values(|b: Bullet| b.active));
        }
        assert(self.bullets@.take(nb as int) =~= self.bullets@);
        let mut enemy_flags: Vec<bool> = Vec::new();
        let ne = self.enemies.len();
        let mut j: usize = 0;
        while j < ne
            invariant
                ne == self.enemies@.len(),
                j <= ne,
                enemy_flags@ == self.enemies@.take(j as int).map_values(|e: Enemy| e.active),
            decreases ne - j,
        {
            enemy_flags.push(self.enemies[j].is_active());
            j = j + 1;
            assert(enemy_flags@ =~= self.enemies@.take(j as int).map_values(|e: Enemy| e.active));
        }
        assert(self.enemies@.take(ne as int) =~= self.enemies@);
        let ghost before = self.enemies@;
        retain_flagged(&mut self.bullets, &bullet_flags);
        retain_flagged(&mut self.enemies, &enemy_flags);
        proof {
            if old(self)@.wf() {
                assert forall|j: int| 0 <= j < before.len() && enemy_flags@[j] implies (|e: Enemy| e.wf())(#[trigger] before[j]) by {
                    assert(old(self)@.enemies[j].wf());
                }
                lemma_kept_items_keep_property(before, enemy_flags@, |e: Enemy| e.wf());
                assert forall|j: int| 0 <= j < self@.enemies.len() implies #[trigger] self@.enemies[j].wf() by {
                    assert((|e: Enemy| e.wf())(kept_items(before, enemy_flags@)[j]));
                }
            }
        }
        (bullet_flags, enemy_flags)
    }

    /// Ends the part of a frame that decides over the entities: resolves the collisions (as
    /// `check_collisions`), then removes what is spent or destroyed (as `remove_inactive`).
    /// Afterwards every bullet and enemy is active, and the score has grown by exactly the
    /// points of the enemies destroyed, at most one enemy's points per enemy.
    pub fn resolve_frame(&mut self, overlaps: &Overlaps) -> (kept: (Vec<bool>, Vec<bool>))
        requires
            overlaps.fits(old(self).bullets@.len(), old(self).enemies@.len()),
            battle_of(
                old(self).bullets@,
                old(self).enemies@,
                old(self).score as int,
                overlaps.rows(),
            ).score <= u32::MAX,
        ensures
            old(self)@.wf() ==> final(self)@.wf(),
            ({
                let w = battle_of(
                    old(self).bullets@,
                    old(self).enemies@,
                    old(self).score as int,
                    overlaps.rows(),
                );
                let struck = player_struck(
                    old(self).player,
                    w.enemies,
                    w.bullets,
                    overlaps.player_enemy@,
                    overlaps.player_bullet@,
                );
                &&& kept.0@ == bullet_flags(w.bullets)
                &&& kept.1@ == enemy_flags(w.enemies)
                &&& final(self).bullets@ == kept_items(w.bullets, kept.0@)
                &&& final(self).enemies@ == kept_items(w.enemies, kept.1@)
                &&& final(self).score == old(self).score + POINTS_PER_ENEMY * count_destroyed(
                    old(self).enemies@,
                    w.enemies,
                )
                &&& final(self).state == (if struck {
                    GameState::GameOver
                } else {
                    old(self).state
                })
                &&& final(self).needs_redraw == (old(self).needs_redraw || struck)
            }),
            forall|i: int| 0 <= i < final(self).bullets@.len() ==> #[trigger] final(self).bullets@[i].active,
            forall|j: int| 0 <= j < final(self).enemies@.len() ==> #[trigger] final(self).enemies@[j].active,
            old(self).score <= final(self).score,
            final(self).score <= old(self).score + POINTS_PER_ENEMY * old(self).enemies@.len(),
            (final(self).score - old(self).score) % (POINTS_PER_ENEMY as int) == 0,
            final(self).player == old(self).player,
            final(self).animation_id == old(self).animation_id,
    {
        self.check_collisions(overlaps);
        let ghost w = battle_of(
            old(self).bullets@,
            old(self).enemies@,
            old(self).score as int,
            overlaps.rows(),
        );
        let kept = self.remove_inactive();
        proof {
            lemma_resolution_counts_destroyed(
                Battle { bullets: old(self).bullets@, enemies: old(self).enemies@, score: old(self).score as int },
                overlaps.rows(),
                old(self).bullets@.len(),
            );
            lemma_count_destroyed_bounded(old(self).enemies@, w.enemies);
            lemma_resolution_shape(
                Battle { bullets: old(self).bullets@, enemies: old(self).enemies@, score: old(self).score as int },
                overlaps.rows(),
                old(self).bullets@.len(),
            );
            lemma_kept_items_keep_property(w.bullets, bullet_flags(w.bullets), |b: Bullet| b.active);
            lemma_kept_items_keep_property(w.enemies, enemy_flags(w.enemies), |e: Enemy| e.active);
            assert forall|i: int| 0 <= i < self.bullets@.len() implies #[trigger] self.bullets@[i].active by {
                assert((|b: Bullet| b.active)(kept_items(w.bullets, bullet_flags(w.bullets))[i]));
            }
            assert forall|j: int| 0 <= j < self.enemies@.len() implies #[trigger] self.enemies@[j].active by {
                assert((|e: Enemy| e.active)(kept_items(w.enemies, enemy_flags(w.enemies))[j]));
            }
            let c = count_destroyed(old(self).enemies@, w.enemies);
            assert((100 * c) % 100 == 0) by (nonlinear_arith);
        }
        kept
    }

    /// Whether enemies spawn (only during gameplay).
    pub fn spawning_enabled(&self) -> (enabled: bool)
        ensures
            enabled == (self.state == GameState::Playing),
    {
        self.state == GameState::Playing
    }

    /// Whether a formation may appear: fewer enemies than the limit are on screen.
    pub fn formation_allowed(&self) -> (allowed: bool)
        ensures
            allowed == (self.enemies@.len() < FORMATION_ENEMY_LIMIT),
    {
        self.enemies.len() < FORMATION_ENEMY_LIMIT
    }

    /// Spawns one enemy, of the type that `type_roll` selects, whose weapon is ready in
    /// `cooldown` frames. Returns its type.
    pub fn spawn_enemy(&mut self, type_roll: u32, cooldown: u32) -> (t: EnemyType)
        requires
            cooldown < ENEMY_SHOOT_COOLDOWN,
        ensures
            old(self)@.wf() ==> final(self)@.wf(),
            t == enemy_type_for_roll(type_roll),
            final(self).enemies@ == old(self).enemies@.push(initial_enemy(t, cooldown)),
            final(self).state == old(self).state,
            final(self).player == old(self).player,
            final(self).bullets@ == old(self).bullets@,
            final(self).score == old(self).score,
            final(self).animation_id == old(self).animation_id,
            final(self).needs_redraw == old(self).needs_redraw,
    {
        let t = EnemyType::from_roll(type_roll);
        self.enemies.push(Enemy::new(t, cooldown));
        proof {
            if old(self)@.wf() {
                assert forall|j: int| 0 <= j < self@.enemies.len() implies #[trigger] self@.enemies[j].wf() by {
                    if j < old(self)@.enemies.len() {
                        assert(old(self)@.enemies[j].wf());
                    }
                }
            }
        }
        t
    }

    /// Spawns a formation of enemies; `cooldowns[i]` is the frames before the weapon of the
    /// formation's `i`-th enemy is ready.
    pub fn spawn_enemy_formation(&mut self, formation: Formation, cooldowns: &Vec<u32>)
        requires
            cooldowns@.len() == formation_layout(formation).len(),
            forall|i: int| 0 <= i < cooldowns@.len() ==> #[trigger] cooldowns@[i] < ENEMY_SHOOT_COOLDOWN,
        ensures
            old(self)@.wf() ==> final(self)@.wf(),
            final(self).enemies@ == old(self).enemies@ + formation_enemies(formation, cooldowns@),
            final(self).state == old(self).state,
            final(self).player == old(self).player,
            final(self).bullets@ == old(self).bullets@,
            final(self).score == old(self).score,
            final(self).animation_id == old(self).animation_id,
            final(self).needs_redraw == old(self).needs_redraw,
    {
        let slots = formation.layout();
        let n = slots.len();
        let mut i: usize = 0;
        while i < n
            invariant
                n == slots@.len(),
                slots@ == formation_layout(formation),
                cooldowns@.len() == n,
                forall|k: int| 0 <= k < cooldowns@.len() ==> #[trigger] cooldowns@[k] < ENEMY_SHOOT_COOLDOWN,
                old(self)@.wf() ==> self@.wf(),
                i <= n,
                self.enemies@ == old(self).enemies@ + formation_enemies(formation, cooldowns@).take(
                    i as int,
                ),
                self.state == old(self).state,
                self.player == old(self).player,
                self.bullets@ == old(self).bullets@,
                self.score == old(self).score,
                self.animation_id == old(self).animation_id,
                self.needs_redraw == old(self).needs_redraw,
            decreases n - i,
        {
            let ghost prev = self@;
            self.enemies.push(Enemy::new(slots[i].enemy_type, cooldowns[i]));
            proof {
                if old(self)@.wf() {
                    assert forall|j: int| 0 <= j < self@.enemies.len() implies #[trigger] self@.enemies[j].wf() by {
                        if j < prev.enemies.len() {
                            assert(prev.enemies[j].wf());
                        }
                    }
                }
            }
            i = i + 1;
            assert(self.enemies@ =~= old(self).enemies@ + formation_enemies(
                formation,
                cooldowns@,
            ).take(i as int));
        }
        assert(formation_enemies(formation, cooldowns@).take(n as int) =~= formation_enemies(
            formation,
            cooldowns@,
        ));
    }

    /// Records the id of the animation frame requested for the next frame.
    pub fn set_animation_id(&mut self, id: i32)
        ensures
            old(self)@.wf() ==> final(self)@.wf(),
            final(self).animation_id == Some(id),
            final(self).state == old(self).state,
            final(self).player == old(self).player,
            final(self).enemies@ == old(self).enemies@,
            final(self).bullets@ == old(self).bullets@,
            final(self).score == old(self).score,
            final(self).needs_redraw == old(self).needs_redraw,
    {
        self.animation_id = Some(id);
        proof {
            if old(self)@.wf() {
                lemma_wf_same_entities(old(self)@, self@);
            }
        }
    }
}

/// Resolving hits keeps the number of bullets and of enemies, never brings back an inactive
/// enemy or bullet, and never changes which side fired a bullet.
pub proof fn lemma_resolution_shape(w: Battle, rows: Seq<Seq<bool>>, n: nat)
    requires
        n <= w.bullets.len(),
    ensures
        resolve_bullets(w, rows, n).bullets.len() == w.bullets.len(),
        resolve_bullets(w, rows, n).enemies.len() == w.enemies.len(),
        forall|j: int|
            0 <= j < w.enemies.len() && #[trigger] resolve_bullets(w, rows, n).enemies[j].active
                ==> w.enemies[j].active,
        forall|k: int|
            0 <= k < w.bullets.len() && #[trigger] resolve_bullets(w, rows, n).bullets[k].active
                ==> w.bullets[k].active,
        forall|k: int|
            0 <= k < w.bullets.len() ==> #[trigger] resolve_bullets(w, rows, n).bullets[k].from_player
                == w.bullets[k].from_player,
        forall|k: int|
            0 <= k < w.bullets.len() && !w.bullets[k].from_player ==> #[trigger] resolve_bullets(
                w,
                rows,
                n,
            ).bullets[k] == w.bullets[k],
    decreases n,
{
    if n > 0 {
        lemma_resolution_shape(w, rows, (n - 1) as nat);
        let prev = resolve_bullets(w, rows, (n - 1) as nat);
        let next = resolve_bullet(prev, n - 1, rows[n - 1]);
        assert(resolve_bullets(w, rows, n) == next);
        let b = prev.bullets[n - 1];
        if b.from_player {
            match first_target(b, prev.enemies, rows[n - 1], 0) {
                Some(k) => {
                    lemma_first_target_in_range(b, prev.enemies, rows[n - 1], 0);
                },
                None => {},
            }
        }
    }
}

/// The enemy that `first_target` finds is in range and collides with the bullet.
proof fn lemma_first_target_in_range(bullet: Bullet, enemies: Seq<Enemy>, row: Seq<bool>, from: int)
    requires
        first_target(bullet, enemies, row, from) is Some,
    ensures
        0 <= first_target(bullet, enemies, row, from)->0 < enemies.len(),
        from <= first_target(bullet, enemies, row, from)->0,
        collides(
            bullet.active,
            enemies[first_target(bullet, enemies, row, from)->0].active,
            row[first_target(bullet, enemies, row, from)->0],
        ),
    decreases enemies.len() - from,
{
    if 0 <= from < enemies.len() && !collides(bullet.active, enemies[from].active, row[from]) {
        lemma_first_target_in_range(bullet, enemies, row, from + 1);
    }
}

/// The score does not influence the resolution, and is only added to.
pub proof fn lemma_resolution_score_offset(w: Battle, rows: Seq<Seq<bool>>, n: nat, offset: int)
    ensures
        ({
            let a = resolve_bullets(w, rows, n);
            let b = resolve_bullets(Battle { score: w.score + offset, ..w }, rows, n);
            &&& b.bullets == a.bullets
            &&& b.enemies == a.enemies
            &&& b.score == a.score + offset
        }),
    decreases n,
{
    if n > 0 {
        lemma_resolution_score_offset(w, rows, (n - 1) as nat, offset);
    }
}

/// Updating one enemy changes the destroyed count only at that enemy.
proof fn lemma_count_destroyed_update(before: Seq<Enemy>, after: Seq<Enemy>, k: int, e: Enemy)
    requires
        before.len() == after.len(),
        0 <= k < after.len(),
    ensures
        count_destroyed(before, after.update(k, e)) + (if before[k].active
            && !after[k].active {
            1int
        } else {
            0int
        }) == count_destroyed(before, after) + (if before[k].active && !e.active {
            1int
        } else {
            0int
        }),
    decreases before.len(),
{
    let n = before.len();
    let updated = after.update(k, e);
    if k == n - 1 {
        assert(updated.take(n - 1) =~= after.take(n - 1));
    } else {
        assert(updated.take(n - 1) =~= after.take(n - 1).update(k, e));
        lemma_count_destroyed_update(before.drop_last(), after.take(n - 1), k, e);
    }
}

/// No more enemies are destroyed than there are.
pub proof fn lemma_count_destroyed_bounded(before: Seq<Enemy>, after: Seq<Enemy>)
    ensures
        count_destroyed(before, after) <= before.len(),
    decreases before.len(),
{
    if before.len() > 0 {
        lemma_count_destroyed_bounded(before.drop_last(), after.take(before.len() - 1));
    }
}

/// Nothing is destroyed between a sequence of enemies and itself.
proof fn lemma_count_destroyed_none(enemies: Seq<Enemy>)
    ensures
        count_destroyed(enemies, enemies) == 0,
    decreases enemies.len(),
{
    if enemies.len() > 0 {
        assert(enemies.take(enemies.len() - 1) =~= enemies.drop_last());
        lemma_count_destroyed_none(enemies.drop_last());
    }
}

/// The score of a frame's collisions grows by exactly the points of the enemies that they
/// destroy.
pub proof fn lemma_resolution_counts_destroyed(w: Battle, rows: Seq<Seq<bool>>, n: nat)
    requires
        n <= w.bullets.len(),
    ensures
        resolve_bullets(w, rows, n).score == w.score + POINTS_PER_ENEMY * count_destroyed(
            w.enemies,
            resolve_bullets(w, rows, n).enemies,
        ),
    decreases n,
{
    if n == 0 {
        lemma_count_destroyed_none(w.enemies);
    } else {
        lemma_resolution_counts_destroyed(w, rows, (n - 1) as nat);
        lemma_resolution_shape(w, rows, (n - 1) as nat);
        let prev = resolve_bullets(w, rows, (n - 1) as nat);
        let b = prev.bullets[n - 1];
        if b.from_player {
            match first_target(b, prev.enemies, rows[n - 1], 0) {
                Some(k) => {
                    lemma_first_target_in_range(b, prev.enemies, rows[n - 1], 0);
                    let e = prev.enemies[k].after_damage(1);
                    lemma_count_destroyed_update(w.enemies, prev.enemies, k, e);
                },
                None => {},
            }
        }
    }
}

/// The score stays a multiple of the points per enemy through a frame's collisions.
pub proof fn lemma_score_stays_multiple(
    bullets: Seq<Bullet>,
    enemies: Seq<Enemy>,
    score: int,
    rows: Seq<Seq<bool>>,
)
    requires
        score % (POINTS_PER_ENEMY as int) == 0,
    ensures
        battle_of(bullets, enemies, score, rows).score % (POINTS_PER_ENEMY as int) == 0,
        battle_of(bullets, enemies, score, rows).score >= score,
{
    lemma_resolution_counts_destroyed(Battle { bullets, enemies, score }, rows, bullets.len());
    let c = count_destroyed(enemies, battle_of(bullets, enemies, score, rows).enemies);
    assert((score + 100 * c) % 100 == 0) by (nonlinear_arith)
        requires
            score % 100 == 0,
            c >= 0,
    ;
}

/// During play, space with the weapon ready fires one player bullet and starts the weapon's
/// cooldown; space while the weapon cools down fires nothing.
pub proof fn lemma_space_fires_when_ready(g: GameView, input: InputState)
    requires
        g.state == GameState::Playing,
        input.space_pressed,
        !input.escape_pressed,
    ensures
        input_step(g, input).1.player_bullet == (g.player.current_cooldown == 0),
        g.player.current_cooldown == 0 ==> input_step(g, input).0.bullets == g.bullets.push(
            new_bullet(true),
        ),
        g.player.current_cooldown == 0 ==> input_step(g, input).0.player.current_cooldown
            == g.player.shoot_cooldown,
        g.player.current_cooldown != 0 ==> input_step(g, input).0.bullets == g.bullets,
{
    assert(g.bullets + seq![new_bullet(true)] =~= g.bullets.push(new_bullet(true)));
    assert(g.bullets + Seq::<Bullet>::empty() =~= g.bullets);
}

/// Space (without escape) starts play from the menu, continues it when paused and restarts it
/// after a game over (only that resets the game), with a redraw.
pub proof fn lemma_space_starts_play(g: GameView, input: InputState)
    requires
        space_starts(g.state),
        input.space_pressed,
        !input.escape_pressed,
    ensures
        input_step(g, input).0.state == GameState::Playing,
        input_step(g, input).0.needs_redraw,
        input_step(g, input).1.move_player,
        input_step(g, input).1.reset == (g.state == GameState::GameOver),
{
}

/// Escape during play pauses the game, with a redraw; the ship neither moves nor fires, and
/// the entities and the score stay as they were.
pub proof fn lemma_escape_pauses(g: GameView, input: InputState)
    requires
        g.state == GameState::Playing,
        input.escape_pressed,
    ensures
        input_step(g, input).0.state == GameState::Paused,
        input_step(g, input).0.needs_redraw,
        !input_step(g, input).1.move_player,
        !input_step(g, input).1.player_bullet,
        input_step(g, input).0.player == g.player,
        input_step(g, input).0.enemies == g.enemies,
        input_step(g, input).0.bullets == g.bullets,
        input_step(g, input).0.score == g.score,
{
    assert(g.bullets + Seq::<Bullet>::empty() =~= g.bullets);
}

/// Without space or escape, reading input never changes the game state.
pub proof fn lemma_no_keys_keep_state(s: GameState, input: InputState)
    requires
        !input.space_pressed,
        !input.escape_pressed,
    ensures
        state_after_input(s, input) == s,
{
}

/// Removal keeps exactly the active enemies, in their order.
pub proof fn lemma_removal_keeps_active_enemies(enemies: Seq<Enemy>)
    ensures
        kept_items(enemies, enemy_flags(enemies)) == enemies.filter(|e: Enemy| e.active),
    decreases enemies.len(),
{
    reveal_with_fuel(Seq::filter, 1);
    if enemies.len() > 0 {
        let rest = enemies.drop_last();
        lemma_removal_keeps_active_enemies(rest);
        assert(enemy_flags(enemies).take(enemies.len() - 1) =~= enemy_flags(rest));
    }
}

/// Removal keeps exactly the active bullets, in their order.
pub proof fn lemma_removal_keeps_active_bullets(bullets: Seq<Bullet>)
    ensures
        kept_items(bullets, bullet_flags(bullets)) == bullets.filter(|b: Bullet| b.active),
    decreases bullets.len(),
{
    reveal_with_fuel(Seq::filter, 1);
    if bullets.len() > 0 {
        let rest = bullets.drop_last();
        lemma_removal_keeps_active_bullets(rest);
        assert(bullet_flags(bullets).take(bullets.len() - 1) =~= bullet_flags(rest));
    }
}

/// Reading input keeps a game well-formed.
pub proof fn lemma_input_step_wf(g: GameView, input: InputState)
    requires
        g.wf(),
    ensures
        input_step(g, input).0.wf(),
{
    let next = input_step(g, input).0;
    assert forall|j: int| 0 <= j < next.enemies.len() implies #[trigger] next.enemies[j].wf() by {
        assert(next.enemies[j] == g.enemies[j]);
    }
}

/// Resolving hits keeps every enemy well-formed.
pub proof fn lemma_resolution_keeps_wf(w: Battle, rows: Seq<Seq<bool>>, n: nat)
    requires
        n <= w.bullets.len(),
        forall|j: int| 0 <= j < w.enemies.len() ==> #[trigger] w.enemies[j].wf(),
    ensures
        forall|j: int|
            0 <= j < resolve_bullets(w, rows, n).enemies.len() ==> #[trigger] resolve_bullets(
                w,
                rows,
                n,
            ).enemies[j].wf(),
    decreases n,
{
    if n > 0 {
        lemma_resolution_keeps_wf(w, rows, (n - 1) as nat);
        lemma_resolution_shape(w, rows, (n - 1) as nat);
        let prev = resolve_bullets(w, rows, (n - 1) as nat);
        let b = prev.bullets[n - 1];
        if b.from_player {
            match first_target(b, prev.enemies, rows[n - 1], 0) {
                Some(k) => {
                    lemma_first_target_in_range(b, prev.enemies, rows[n - 1], 0);
                    assert(prev.enemies[k].wf());
                },
                None => {},
            }
        }
    }
}

/// What holds of every item whose flag is set holds of every item kept.
pub proof fn lemma_kept_items_keep_property<T>(items: Seq<T>, keep: Seq<bool>, p: spec_fn(T) -> bool)
    requires
        keep.len() == items.len(),
        forall|j: int| 0 <= j < items.len() && keep[j] ==> p(#[trigger] items[j]),
    ensures
        forall|i: int| 0 <= i < kept_items(items, keep).len() ==> p(#[trigger] kept_items(items, keep)[i]),
    decreases items.len(),
{
    if items.len() > 0 {
        let n = items.len() - 1;
        let rest = items.drop_last();
        assert forall|j: int| 0 <= j < rest.len() && keep.take(n)[j] implies p(#[trigger] rest[j]) by {
            assert(rest[j] == items[j]);
        }
        lemma_kept_items_keep_property(rest, keep.take(n), p);
        let prev = kept_items(rest, keep.take(n));
        let all = kept_items(items, keep);
        assert(all == prev + (if keep[n] {
            seq![items.last()]
        } else {
            Seq::empty()
        }));
        assert forall|i: int| 0 <= i < all.len() implies p(#[trigger] all[i]) by {
            if i < prev.len() {
                assert(all[i] == prev[i]);
            } else {
                assert(all[i] == items[n]);
            }
        }
    } else {
        assert(kept_items(items, keep).len() == 0);
    }
}

/// The player is struck by an enemy bullet wherever in the list it stands: an active enemy
/// bullet overlapping the active player strikes it, whatever bullets come before it.
pub proof fn lemma_any_enemy_bullet_strikes(
    player: Player,
    enemies: Seq<Enemy>,
    bullets: Seq<Bullet>,
    by_enemy: Seq<bool>,
    by_bullet: Seq<bool>,
    k: int,
)
    requires
        0 <= k < bullets.len(),
        by_bullet.len() == bullets.len(),
        !bullets[k].from_player,
        bullets[k].active,
        by_bullet[k],
        player.active,
    ensures
        player_hits_an_enemy_bullet(player, bullets, by_bullet),
        player_struck(player, enemies, bullets, by_enemy, by_bullet),
{
    assert(collides(player.active, bullets[k].active, by_bullet[k]));
}

/// The player is struck by any active enemy overlapping it, wherever in the list it stands.
pub proof fn lemma_any_enemy_strikes(
    player: Player,
    enemies: Seq<Enemy>,
    bullets: Seq<Bullet>,
    by_enemy: Seq<bool>,
    by_bullet: Seq<bool>,
    j: int,
)
    requires
        0 <= j < enemies.len(),
        by_enemy.len() == enemies.len(),
        enemies[j].active,
        by_enemy[j],
        player.active,
    ensures
        player_hits_an_enemy(player, enemies, by_enemy),
        player_struck(player, enemies, bullets, by_enemy, by_bullet),
{
    assert(collides(player.active, enemies[j].active, by_enemy[j]));
}

/// Player bullets never strike the player: putting one in front of the bullets changes
/// nothing about whether the player is struck.
pub proof fn lemma_player_bullets_do_not_strike(
    player: Player,
    bullet: Bullet,
    bullets: Seq<Bullet>,
    overlap: bool,
    by_bullet: Seq<bool>,
)
    requires
        bullet.from_player,
        by_bullet.len() == bullets.len(),
    ensures
        player_hits_an_enemy_bullet(player, seq![bullet] + bullets, seq![overlap] + by_bullet)
            == player_hits_an_enemy_bullet(player, bullets, by_bullet),
{
    let all = seq![bullet] + bullets;
    let flags = seq![overlap] + by_bullet;
    if player_hits_an_enemy_bullet(player, bullets, by_bullet) {
        let k = choose|k: int|
            0 <= k < bullets.len() && !bullets[k].from_player && #[trigger] collides(
                player.active,
                bullets[k].active,
                by_bullet[k],
            );
        assert(all[k + 1] == bullets[k]);
        assert(flags[k + 1] == by_bullet[k]);
        assert(collides(player.active, all[k + 1].active, flags[k + 1]));
    }
    if player_hits_an_enemy_bullet(player, all, flags) {
        let k = choose|k: int|
            0 <= k < all.len() && !all[k].from_player && #[trigger] collides(
                player.active,
                all[k].active,
                flags[k],
            );
        assert(k >= 1);
        assert(all[k] == bullets[k - 1]);
        assert(flags[k] == by_bullet[k - 1]);
        assert(collides(player.active, bullets[k - 1].active, by_bullet[k - 1]));
    }
}

/// In a frame's collisions, an active enemy bullet overlapping the active player ends the game,
/// wherever it stands among the bullets: enemy bullets are not spent by the resolution of hits.
pub proof fn lemma_enemy_bullet_ends_game(
    player: Player,
    bullets: Seq<Bullet>,
    enemies: Seq<Enemy>,
    score: int,
    rows: Seq<Seq<bool>>,
    by_enemy: Seq<bool>,
    by_bullet: Seq<bool>,
    k: int,
)
    requires
        0 <= k < bullets.len(),
        by_bullet.len() == bullets.len(),
        !bullets[k].from_player,
        bullets[k].active,
        by_bullet[k],
        player.active,
    ensures
        player_struck(
            player,
            battle_of(bullets, enemies, score, rows).enemies,
            battle_of(bullets, enemies, score, rows).bullets,
            by_enemy,
            by_bullet,
        ),
{
    let w = Battle { bullets, enemies, score };
    lemma_resolution_shape(w, rows, bullets.len());
    let b = battle_of(bullets, enemies, score, rows);
    assert(b.bullets[k] == bullets[k]);
    lemma_any_enemy_bullet_strikes(player, b.enemies, b.bullets, by_enemy, by_bullet, k);
}

/// Escape acts only during play: outside play, without space, the state stays as it is and
/// nothing is redrawn; and the game is paused only from play (running, or just started by
/// space) or when it already was.
pub proof fn lemma_escape_only_pauses_play(s: GameState, input: InputState)
    ensures
        s != GameState::Playing && !input.space_pressed ==> state_after_input(s, input) == s
            && !input_redraws(s, input),
        state_after_input(s, input) == GameState::Paused ==> s == GameState::Paused || (
        input.escape_pressed && (s == GameState::Playing || (input.space_pressed && space_starts(
            s,
        )))),
        s == GameState::GameOver && !input.space_pressed ==> state_after_input(s, input)
            == GameState::GameOver,
        s == GameState::MainMenu && !input.space_pressed ==> state_after_input(s, input)
            == GameState::MainMenu,
{
}

} // verus!
