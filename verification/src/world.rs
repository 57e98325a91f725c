//! The whole game: the mode, the bodies, the effects and the counters, with
//! the step that advances them by one frame.

use vstd::prelude::*;
use crate::effect::Effect;
use crate::fleet::{
    advance_bullets, advance_enemies, any_collision, ascent, awarding, blasting, bullet_keeper,
    descent, effect_keeper, enemy_keeper, lemma_marks_keep_geometry, prune_bullets, prune_effects,
    prune_enemies, resolve_collisions, score_hits, spec_marked_against, spec_struck,
    spec_touches_any,
};
use crate::score::{lemma_hits_are_monotonic, Scoreboard};
use crate::shape::Shape;
use crate::spawner::{lemma_admissible_start, spawn, spec_admissible};
use crate::state::{GameState, Signal};
use crate::units::{clamped, distance, saturate, saturated, travel};

verus! {

/// Side of the player: 32 pixels.
pub const PLAYER_SIZE: u32 = 32_000;

/// Speed of the player: 200 pixels per second.
pub const PLAYER_SPEED: u64 = 200_000;

/// Side of a bullet: 32 pixels.
pub const BULLET_SIZE: u32 = 32_000;

/// Height above the player's centre at which a bullet appears: 24 pixels.
pub const MUZZLE_OFFSET: i64 = 24_000;

/// The visible area, in units.
#[derive(Clone, Copy, Debug, PartialEq, Eq, Structural)]
pub struct Screen {
    pub width: u32,
    pub height: u32,
}

/// The input of one frame of play, sampled once.
#[derive(Clone, Copy, Debug, PartialEq, Eq, Structural)]
pub struct Input {
    /// Move-up is held.
    pub up: bool,
    /// Move-down is held.
    pub down: bool,
    /// Move-left is held.
    pub left: bool,
    /// Move-right is held.
    pub right: bool,
    /// Fire was pressed in this frame.
    pub fire: bool,
    /// Pause was pressed in this frame.
    pub pause: bool,
}

/// What the driver has to do after a step.
#[derive(Clone, Copy, Debug, PartialEq, Eq)]
pub struct Report {
    /// A bullet was fired: play the laser sound once.
    pub laser: bool,
    /// Number of hits: play the explosion sound once for each, and start an
    /// explosion for each of that many effects at the end of the list.
    pub blasts: usize,
    /// The session ended in this frame.
    pub game_over: bool,
    /// The best score to write to the persisted slot, if any.
    pub save: Option<u32>,
}

/// The game.
#[derive(Clone, Debug, PartialEq, Eq)]
pub struct World {
    pub state: GameState,
    pub player: Shape,
    /// The enemies, oldest first.
    pub enemies: Vec<Shape>,
    /// The bullets, oldest first.
    pub bullets: Vec<Shape>,
    /// The explosions in flight, oldest first.
    pub effects: Vec<Effect>,
    pub board: Scoreboard,
}

/// The game as a mathematical value.
pub ghost struct WorldView {
    pub state: GameState,
    pub player: Shape,
    pub enemies: Seq<Shape>,
    pub bullets: Seq<Shape>,
    pub effects: Seq<Effect>,
    pub board: Scoreboard,
}

impl View for World {
    type V = WorldView;

    open spec fn view(&self) -> WorldView {
        WorldView {
            state: self.state,
            player: self.player,
            enemies: self.enemies@,
            bullets: self.bullets@,
            effects: self.effects@,
            board: self.board,
        }
    }
}

impl Report {
    /// The report of a frame in which nothing happened.
    pub open spec fn spec_idle() -> Report {
        Report { laser: false, blasts: 0, game_over: false, save: None }
    }
}

/// The player as a process starts: at the centre of the screen.
pub open spec fn spec_player_at_centre(screen: Screen) -> Shape {
    Shape {
        size: 32_000,
        speed: 200_000,
        x: (screen.width / 2) as i64,
        y: (screen.height / 2) as i64,
        collided: false,
    }
}

/// Twice `speed`, stopped at the largest value a speed can hold.
pub open spec fn spec_doubled(speed: u64) -> u64 {
    if 2 * speed > u64::MAX {
        u64::MAX
    } else {
        (2 * speed) as u64
    }
}

impl WorldView {
    /// Every body has a positive side, and the level follows from the score.
    pub open spec fn wf(self) -> bool {
        &&& self.player.wf()
        &&& forall|i: int| 0 <= i < self.enemies.len() ==> (#[trigger] self.enemies[i]).wf()
        &&& forall|i: int| 0 <= i < self.bullets.len() ==> (#[trigger] self.bullets[i]).wf()
        &&& self.board.wf()
    }

    /// The game as a process starts: in the menu, with nothing on the screen
    /// but the player.
    pub open spec fn spec_new(high_score: u32, screen: Screen) -> WorldView {
        WorldView {
            state: GameState::MainMenu,
            player: spec_player_at_centre(screen),
            enemies: Seq::empty(),
            bullets: Seq::empty(),
            effects: Seq::empty(),
            board: Scoreboard::spec_new(high_score),
        }
    }

    /// The game at the start of a session: the screen is cleared, the player
    /// is back at the centre, score and level start over.
    pub open spec fn spec_started(self, screen: Screen) -> WorldView {
        WorldView {
            state: GameState::Playing,
            player: Shape {
                x: (screen.width / 2) as i64,
                y: (screen.height / 2) as i64,
                ..self.player
            },
            enemies: Seq::empty(),
            bullets: Seq::empty(),
            effects: Seq::empty(),
            board: self.board.spec_reset(),
        }
    }

    /// The game after a signal. A start from the menu begins a session; any
    /// other signal moves the mode, if the mode answers to it, and nothing
    /// else.
    pub open spec fn spec_after_signal(self, signal: Signal, screen: Screen) -> WorldView {
        if self.state == GameState::MainMenu && signal == Signal::Start {
            self.spec_started(screen)
        } else {
            WorldView { state: self.state.spec_next(signal), ..self }
        }
    }

    /// The best score to persist after a signal: the session just ended and
    /// its score is at least as good as the best.
    pub open spec fn spec_to_save(self, signal: Signal) -> Option<u32> {
        if self.state == GameState::Playing && signal == Signal::Defeat
            && self.board.spec_is_record() {
            Some(self.board.high_score)
        } else {
            None
        }
    }

    /// Where the held directions carry the player's centre horizontally,
    /// before it is held to the screen.
    pub open spec fn spec_steered_x(self, input: Input, dt_micros: u32) -> int {
        let stride = travel(self.player.speed, dt_micros);
        self.player.x + (if input.right {
            stride
        } else {
            0
        }) - (if input.left {
            stride
        } else {
            0
        })
    }

    /// Where the held directions carry the player's centre vertically,
    /// before it is held to the screen.
    pub open spec fn spec_steered_y(self, input: Input, dt_micros: u32) -> int {
        let stride = travel(self.player.speed, dt_micros);
        self.player.y + (if input.down {
            stride
        } else {
            0
        }) - (if input.up {
            stride
        } else {
            0
        })
    }

    /// The player after the frame's movement: carried by the held
    /// directions, then held to the screen.
    pub open spec fn spec_player_after(self, input: Input, dt_micros: u32, screen: Screen) -> Shape {
        Shape {
            x: clamped(self.spec_steered_x(input, dt_micros), 0, screen.width as int) as i64,
            y: clamped(self.spec_steered_y(input, dt_micros), 0, screen.height as int) as i64,
            ..self.player
        }
    }

    /// The bullet that a fire command creates: at the player's horizontal
    /// position, a little above the player, twice as fast as the player.
    pub open spec fn spec_shot(self, input: Input, dt_micros: u32) -> Shape {
        Shape {
            size: 32_000,
            speed: spec_doubled(self.player.speed),
            x: saturated(self.spec_steered_x(input, dt_micros)) as i64,
            y: saturated(self.spec_steered_y(input, dt_micros) - 24_000) as i64,
            collided: false,
        }
    }

    /// The enemies that the collision pass of the frame sees: the old ones
    /// after their fall, then the newcomer, less those that pruning removes.
    pub open spec fn spec_enemies_in_play(
        self,
        dt_micros: u32,
        screen: Screen,
        newcomer: Option<Shape>,
    ) -> Seq<Shape> {
        let fallen = self.enemies.map_values(descent(dt_micros));
        let all = match newcomer {
            Some(enemy) => fallen.push(enemy),
            None => fallen,
        };
        all.filter(enemy_keeper(screen.height))
    }

    /// The bullets that the collision pass of the frame sees: the old ones
    /// and the one just fired, after their rise, less those that pruning
    /// removes.
    pub open spec fn spec_bullets_in_play(self, input: Input, dt_micros: u32) -> Seq<Shape> {
        let all = if input.fire {
            self.bullets.push(self.spec_shot(input, dt_micros))
        } else {
            self.bullets
        };
        all.map_values(ascent(dt_micros)).filter(bullet_keeper())
    }

    /// The enemy of each colliding pair of the frame, in order.
    pub open spec fn spec_hits(
        self,
        input: Input,
        dt_micros: u32,
        screen: Screen,
        newcomer: Option<Shape>,
    ) -> Seq<Shape> {
        spec_struck(
            self.spec_enemies_in_play(dt_micros, screen, newcomer),
            self.spec_bullets_in_play(input, dt_micros),
        )
    }

    /// An enemy in play reaches the player.
    pub open spec fn spec_defeated(
        self,
        input: Input,
        dt_micros: u32,
        screen: Screen,
        newcomer: Option<Shape>,
    ) -> bool {
        spec_touches_any(
            self.spec_player_after(input, dt_micros, screen),
            self.spec_enemies_in_play(dt_micros, screen, newcomer),
        )
    }

    /// The counters after the hits of the frame.
    pub open spec fn spec_board_after(
        self,
        input: Input,
        dt_micros: u32,
        screen: Screen,
        newcomer: Option<Shape>,
    ) -> Scoreboard {
        self.board.spec_after_hits(
            self.spec_hits(input, dt_micros, screen, newcomer).map_values(awarding()),
        )
    }

    /// The game after one frame. Outside play nothing moves. In play: the
    /// player moves and is held to the screen; a fire command adds a bullet;
    /// enemies fall and bullets rise; the newcomer joins; what left the
    /// band or carries a mark is removed; each colliding pair marks its two
    /// bodies, scores and starts an explosion; explosions that have played
    /// out are removed; an enemy that reaches the player ends the session,
    /// and failing that a pause command pauses it.
    pub open spec fn spec_after_step(
        self,
        input: Input,
        dt_micros: u32,
        screen: Screen,
        newcomer: Option<Shape>,
    ) -> WorldView {
        if self.state != GameState::Playing {
            self
        } else {
            let enemies = self.spec_enemies_in_play(dt_micros, screen, newcomer);
            let bullets = self.spec_bullets_in_play(input, dt_micros);
            let hits = self.spec_hits(input, dt_micros, screen, newcomer);
            WorldView {
                state: if self.spec_defeated(input, dt_micros, screen, newcomer) {
                    GameState::GameOver
                } else if input.pause {
                    GameState::Paused
                } else {
                    GameState::Playing
                },
                player: self.spec_player_after(input, dt_micros, screen),
                enemies: spec_marked_against(enemies, bullets),
                bullets: spec_marked_against(bullets, enemies),
                effects: (self.effects + hits.map_values(blasting())).filter(effect_keeper()),
                board: self.spec_board_after(input, dt_micros, screen, newcomer),
            }
        }
    }

    /// What the step of one frame reports.
    pub open spec fn spec_report(
        self,
        input: Input,
        dt_micros: u32,
        screen: Screen,
        newcomer: Option<Shape>,
    ) -> Report {
        if self.state != GameState::Playing {
            Report::spec_idle()
        } else {
            let defeated = self.spec_defeated(input, dt_micros, screen, newcomer);
            let board = self.spec_board_after(input, dt_micros, screen, newcomer);
            Report {
                laser: input.fire,
                blasts: self.spec_hits(input, dt_micros, screen, newcomer).len() as usize,
                game_over: defeated,
                save: if defeated && board.spec_is_record() {
                    Some(board.high_score)
                } else {
                    None
                },
            }
        }
    }
}

impl Report {
    /// The report of a frame in which nothing happened.
    pub fn idle() -> (report: Report)
        ensures
            report == Self::spec_idle(),
    {
        Report { laser: false, blasts: 0, game_over: false, save: None }
    }
}

/// Twice `speed`, stopped at the largest value a speed can hold.
pub fn doubled(speed: u64) -> (twice: u64)
    ensures
        twice == spec_doubled(speed),
{
    if speed > u64::MAX / 2 {
        u64::MAX
    } else {
        2 * speed
    }
}

/// `v` held to `[0, limit]`.
pub fn hold_to(v: i128, limit: u32) -> (held: i64)
    ensures
        held == clamped(v as int, 0, limit as int),
{
    if v < 0 {
        0
    } else if v > limit as i128 {
        limit as i64
    } else {
        v as i64
    }
}

impl World {
    /// The game as a process starts, with the best score that was loaded.
    pub fn new(high_score: u32, screen: Screen) -> (world: World)
        ensures
            world@ == WorldView::spec_new(high_score, screen),
            world@.wf(),
    {
        World {
            state: GameState::initial(),
            player: Shape {
                size: PLAYER_SIZE,
                speed: PLAYER_SPEED,
                x: (screen.width / 2) as i64,
                y: (screen.height / 2) as i64,
                collided: false,
            },
            enemies: Vec::new(),
            bullets: Vec::new(),
            effects: Vec::new(),
            board: Scoreboard::new(high_score),
        }
    }

    /// Hands a signal to the game and returns the best score to persist, if
    /// the signal ended a session with a score at least as good as the best.
    pub fn apply(&mut self, signal: Signal, screen: Screen) -> (save: Option<u32>)
        ensures
            final(self)@ == old(self)@.spec_after_signal(signal, screen),
            save == old(self)@.spec_to_save(signal),
            final(self).board.high_score == old(self).board.high_score,
            old(self)@.wf() ==> final(self)@.wf(),
    {
        match (self.state, signal) {
            (GameState::MainMenu, Signal::Start) => {
                self.enemies = Vec::new();
                self.bullets = Vec::new();
                self.effects = Vec::new();
                self.player.x = (screen.width / 2) as i64;
                self.player.y = (screen.height / 2) as i64;
                self.board.reset();
                self.state = GameState::Playing;
                None
            },
            (GameState::Playing, Signal::Defeat) => {
                self.state = self.state.next(signal);
                if self.board.is_record() {
                    Some(self.board.high_score)
                } else {
                    None
                }
            },
            _ => {
                self.state = self.state.next(signal);
                None
            },
        }
    }

    /// Advances the game by one frame, with the spawner's outcome for the
    /// frame given by the caller.
    pub fn step_with(
        &mut self,
        input: Input,
        dt_micros: u32,
        screen: Screen,
        newcomer: Option<Shape>,
    ) -> (report: Report)
        ensures
            final(self)@ == old(self)@.spec_after_step(input, dt_micros, screen, newcomer),
            report == old(self)@.spec_report(input, dt_micros, screen, newcomer),
            final(self).board.score >= old(self).board.score,
            final(self).board.level >= old(self).board.level,
            final(self).board.high_score >= old(self).board.high_score,
            old(self)@.wf() && (match newcomer {
                Some(enemy) => enemy.wf(),
                None => true,
            }) ==> final(self)@.wf(),
    {
        proof {
            if old(self)@.wf() && (match newcomer {
                Some(enemy) => enemy.wf(),
                None => true,
            }) {
                lemma_step_keeps_wf(old(self)@, input, dt_micros, screen, newcomer);
            }
        }
        match self.state {
            GameState::Playing => {},
            _ => {
                return Report::idle();
            },
        }
        let ghost before = self@;
        let stride: i128 = distance(self.player.speed, dt_micros);
        let mut px: i128 = self.player.x as i128;
        let mut py: i128 = self.player.y as i128;
        if input.up {
            py = py - stride;
        }
        if input.left {
            px = px - stride;
        }
        if input.down {
            py = py + stride;
        }
        if input.right {
            px = px + stride;
        }
        if input.fire {
            self.bullets.push(
                Shape {
                    size: BULLET_SIZE,
                    speed: doubled(self.player.speed),
                    x: saturate(px),
                    y: saturate(py - MUZZLE_OFFSET as i128),
                    collided: false,
                },
            );
        }
        self.player.x = hold_to(px, screen.width);
        self.player.y = hold_to(py, screen.height);
        advance_enemies(&mut self.enemies, dt_micros);
        advance_bullets(&mut self.bullets, dt_micros);
        match newcomer {
            Some(enemy) => {
                self.enemies.push(enemy);
            },
            None => {},
        }
        prune_enemies(&mut self.enemies, screen.height);
        prune_bullets(&mut self.bullets);
        let ghost enemies = self.enemies@;
        let ghost bullets = self.bullets@;
        let struck = resolve_collisions(&mut self.enemies, &mut self.bullets);
        score_hits(&mut self.board, &mut self.effects, &struck);
        let defeated = any_collision(&self.player, &self.enemies);
        proof {
            lemma_marks_keep_geometry(self.player, enemies, bullets);
        }
        prune_effects(&mut self.effects);
        let mut save: Option<u32> = None;
        if defeated {
            self.state = self.state.next(Signal::Defeat);
            if self.board.is_record() {
                save = Some(self.board.high_score);
            }
        } else if input.pause {
            self.state = self.state.next(Signal::Pause);
        }
        Report { laser: input.fire, blasts: struck.len(), game_over: defeated, save }
    }

    /// Advances the game by one frame. In play the spawner is asked once,
    /// at the level the frame began with.
    pub fn step(&mut self, input: Input, dt_micros: u32, screen: Screen) -> (report: Report)
        ensures
            exists|newcomer: Option<Shape>|
                {
                    &&& match newcomer {
                        Some(enemy) => spec_admissible(enemy, old(self).board.level, screen.width),
                        None => true,
                    }
                    &&& final(self)@ == old(self)@.spec_after_step(
                        input,
                        dt_micros,
                        screen,
                        newcomer,
                    )
                    &&& report == old(self)@.spec_report(input, dt_micros, screen, newcomer)
                },
            old(self).state != GameState::Playing ==> final(self)@ == old(self)@ && report
                == Report::spec_idle(),
            final(self).board.score >= old(self).board.score,
            final(self).board.level >= old(self).board.level,
            final(self).board.high_score >= old(self).board.high_score,
            old(self)@.wf() ==> final(self)@.wf(),
    {
        let newcomer = match self.state {
            GameState::Playing => spawn(self.board.level, screen.width),
            _ => None,
        };
        proof {
            if let Some(enemy) = newcomer {
                lemma_admissible_start(enemy, self.board.level, screen.width, screen.height);
            }
        }
        self.step_with(input, dt_micros, screen, newcomer)
    }
}

/// The bodies that the collision pass of a frame sees have passed pruning:
/// none carries a mark, and none has left the visible band. Each of them is
/// the newcomer, the bullet just fired, or a body of the frame before after
/// its motion, so nothing is removed for any other reason.
pub proof fn lemma_in_play_is_pruned(
    world: WorldView,
    input: Input,
    dt_micros: u32,
    screen: Screen,
    newcomer: Option<Shape>,
)
    ensures
        forall|i: int|
            0 <= i < world.spec_enemies_in_play(dt_micros, screen, newcomer).len() ==> {
                let enemy = #[trigger] world.spec_enemies_in_play(dt_micros, screen, newcomer)[i];
                &&& !enemy.collided
                &&& enemy.spec_enemy_in_band(screen.height)
                &&& (newcomer == Some(enemy) || exists|k: int|
                    0 <= k < world.enemies.len() && enemy == (#[trigger] world.enemies[k]).spec_descended(
                        dt_micros,
                    ))
            },
        forall|i: int|
            0 <= i < world.spec_bullets_in_play(input, dt_micros).len() ==> {
                let bullet = #[trigger] world.spec_bullets_in_play(input, dt_micros)[i];
                &&& !bullet.collided
                &&& bullet.spec_bullet_in_band()
                &&& ((input.fire && bullet == world.spec_shot(input, dt_micros).spec_ascended(
                    dt_micros,
                )) || exists|k: int|
                    0 <= k < world.bullets.len() && bullet == (#[trigger] world.bullets[k]).spec_ascended(
                        dt_micros,
                    ))
            },
{
    let fallen = world.enemies.map_values(descent(dt_micros));
    let all_enemies = match newcomer {
        Some(enemy) => fallen.push(enemy),
        None => fallen,
    };
    let enemies = world.spec_enemies_in_play(dt_micros, screen, newcomer);
    assert forall|i: int| 0 <= i < enemies.len() implies {
        let enemy = #[trigger] enemies[i];
        &&& !enemy.collided
        &&& enemy.spec_enemy_in_band(screen.height)
        &&& (newcomer == Some(enemy) || exists|k: int|
            0 <= k < world.enemies.len() && enemy == (#[trigger] world.enemies[k]).spec_descended(
                dt_micros,
            ))
    } by {
        let enemy = enemies[i];
        all_enemies.lemma_filter_pred(enemy_keeper(screen.height), i);
        all_enemies.lemma_filter_contains_rev(enemy_keeper(screen.height), enemy);
        let k = choose|k: int| 0 <= k < all_enemies.len() && all_enemies[k] == enemy;
        if k < world.enemies.len() {
            assert(enemy == world.enemies[k].spec_descended(dt_micros));
        }
    }
    let all_bullets = if input.fire {
        world.bullets.push(world.spec_shot(input, dt_micros))
    } else {
        world.bullets
    };
    let risen = all_bullets.map_values(ascent(dt_micros));
    let bullets = world.spec_bullets_in_play(input, dt_micros);
    assert forall|i: int| 0 <= i < bullets.len() implies {
        let bullet = #[trigger] bullets[i];
        &&& !bullet.collided
        &&& bullet.spec_bullet_in_band()
        &&& ((input.fire && bullet == world.spec_shot(input, dt_micros).spec_ascended(dt_micros))
            || exists|k: int|
            0 <= k < world.bullets.len() && bullet == (#[trigger] world.bullets[k]).spec_ascended(
                dt_micros,
            ))
    } by {
        let bullet = bullets[i];
        risen.lemma_filter_pred(bullet_keeper(), i);
        risen.lemma_filter_contains_rev(bullet_keeper(), bullet);
        let k = choose|k: int| 0 <= k < risen.len() && risen[k] == bullet;
        if k < world.bullets.len() {
            assert(bullet == world.bullets[k].spec_ascended(dt_micros));
        }
    }
}

/// A step keeps a well-formed game well-formed, provided the newcomer, if
/// any, has a positive side.
pub proof fn lemma_step_keeps_wf(
    world: WorldView,
    input: Input,
    dt_micros: u32,
    screen: Screen,
    newcomer: Option<Shape>,
)
    requires
        world.wf(),
        match newcomer {
            Some(enemy) => enemy.wf(),
            None => true,
        },
    ensures
        world.spec_after_step(input, dt_micros, screen, newcomer).wf(),
{
    if world.state == GameState::Playing {
        let after = world.spec_after_step(input, dt_micros, screen, newcomer);
        let enemies = world.spec_enemies_in_play(dt_micros, screen, newcomer);
        let bullets = world.spec_bullets_in_play(input, dt_micros);
        lemma_in_play_is_pruned(world, input, dt_micros, screen, newcomer);
        assert forall|i: int| 0 <= i < after.enemies.len() implies (#[trigger] after.enemies[i]).wf() by {
            assert(after.enemies[i].size == enemies[i].size);
        }
        assert forall|i: int| 0 <= i < after.bullets.len() implies (#[trigger] after.bullets[i]).wf() by {
            assert(after.bullets[i].size == bullets[i].size);
        }
        lemma_hits_are_monotonic(
            world.board,
            world.spec_hits(input, dt_micros, screen, newcomer).map_values(awarding()),
        );
    }
}

/// Through a step no counter falls: not the score, not the level, not the
/// best score. A signal leaves the best score as it is, and only the start
/// of a session sets score and level back.
pub proof fn lemma_counters_never_fall(
    world: WorldView,
    input: Input,
    dt_micros: u32,
    screen: Screen,
    newcomer: Option<Shape>,
    signal: Signal,
)
    ensures
        world.spec_after_step(input, dt_micros, screen, newcomer).board.score >= world.board.score,
        world.spec_after_step(input, dt_micros, screen, newcomer).board.level >= world.board.level,
        world.spec_after_step(input, dt_micros, screen, newcomer).board.high_score
            >= world.board.high_score,
        world.spec_after_signal(signal, screen).board.high_score == world.board.high_score,
        !(world.state == GameState::MainMenu && signal == Signal::Start) ==> world.spec_after_signal(
            signal,
            screen,
        ).board == world.board,
{
    lemma_hits_are_monotonic(
        world.board,
        world.spec_hits(input, dt_micros, screen, newcomer).map_values(awarding()),
    );
}

/// A step leaves play only for a pause or for the end of the session, and
/// outside play it changes nothing: a fire command given during a pause
/// creates no bullet and leaves the game paused.
pub proof fn lemma_step_respects_mode(
    world: WorldView,
    input: Input,
    dt_micros: u32,
    screen: Screen,
    newcomer: Option<Shape>,
)
    ensures
        world.state != GameState::Playing ==> world.spec_after_step(
            input,
            dt_micros,
            screen,
            newcomer,
        ) == world,
        world.state == GameState::Playing ==> world.spec_after_step(
            input,
            dt_micros,
            screen,
            newcomer,
        ).state == if world.spec_defeated(input, dt_micros, screen, newcomer) {
            world.state.spec_next(Signal::Defeat)
        } else if input.pause {
            world.state.spec_next(Signal::Pause)
        } else {
            world.state
        },
{
}

} // verus!
