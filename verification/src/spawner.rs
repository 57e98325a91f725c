//! The enemy generator: a chance draw per frame and, where it succeeds, the
//! draws that shape the newcomer.

use vstd::prelude::*;
use crate::shape::Shape;

verus! {

/// Upper bound handed to the generator for the chance draw: it cuts the
/// fraction off, so the outcomes are the hundred values below the bound.
pub const CHANCE_OUTCOMES: i64 = 100;

/// Smallest outcome of the chance draw that lets an enemy in.
pub const SPAWN_THRESHOLD: i64 = 95;

/// Smallest side of a new enemy: 16 pixels.
pub const MIN_ENEMY_SIZE: u32 = 16_000;

/// Largest side of a new enemy: 64 pixels.
pub const MAX_ENEMY_SIZE: u32 = 64_000;

/// Lowest speed of a new enemy per level: 50 pixels per second times the
/// difficulty scalar of one half per level.
pub const MIN_SPEED_PER_LEVEL: u64 = 25_000;

/// Highest speed of a new enemy per level: 150 pixels per second times the
/// difficulty scalar of one half per level.
pub const MAX_SPEED_PER_LEVEL: u64 = 75_000;

/// The chance draw lets an enemy in.
pub open spec fn spec_spawns(chance: i64) -> bool {
    chance >= 95
}

/// Lowest speed of an enemy that appears at `level`.
pub open spec fn spec_slowest(level: u32) -> int {
    25_000 * level
}

/// Highest speed of an enemy that appears at `level`.
pub open spec fn spec_fastest(level: u32) -> int {
    75_000 * level
}

/// Half of `size`, rounded up: the least distance from a screen edge at which
/// a body of that side lies wholly on the screen.
pub open spec fn spec_margin(size: u32) -> int {
    (size + 1) / 2
}

/// Lower end of the positions at which an enemy of side `size` appears on a
/// screen `screen_width` wide. On a screen narrower than the enemy the two
/// ends change places.
pub open spec fn spec_lane_low(size: u32, screen_width: u32) -> int {
    if spec_margin(size) <= screen_width - spec_margin(size) {
        spec_margin(size)
    } else {
        screen_width - spec_margin(size)
    }
}

/// Upper end of the positions at which an enemy of side `size` appears.
pub open spec fn spec_lane_high(size: u32, screen_width: u32) -> int {
    if spec_margin(size) <= screen_width - spec_margin(size) {
        screen_width - spec_margin(size)
    } else {
        spec_margin(size)
    }
}

/// The enemy that the three draws give: unmarked, and a full side above the
/// top of the screen.
pub open spec fn spec_newcomer(size: u32, speed: u64, x: i64) -> Shape {
    Shape { size, speed, x, y: (-(size as int)) as i64, collided: false }
}

/// `enemy` is one that may appear at `level` on a screen `screen_width` wide.
pub open spec fn spec_admissible(enemy: Shape, level: u32, screen_width: u32) -> bool {
    &&& 16_000 <= enemy.size <= 64_000
    &&& spec_slowest(level) <= enemy.speed <= spec_fastest(level)
    &&& spec_lane_low(enemy.size, screen_width) <= enemy.x <= spec_lane_high(
        enemy.size,
        screen_width,
    )
    &&& enemy.y == -enemy.size
    &&& !enemy.collided
}

/// Calls `macroquad::rand::gen_range` on two `i64` bounds. The generator
/// scales a 32-bit draw into the interval in double precision and cuts the
/// fraction off, so for bounds that a double holds exactly the result lies
/// between them, both ends included. Nothing is claimed of which value comes.
#[verifier::external_body]
fn uniform_between(low: i64, high: i64) -> (draw: i64)
    requires
        -9_007_199_254_740_992 <= low <= high <= 9_007_199_254_740_992,
    ensures
        low <= draw <= high,
{
    macroquad::rand::gen_range(low, high)
}

/// Tells whether the chance draw lets an enemy in.
pub fn spawns(chance: i64) -> (yes: bool)
    ensures
        yes == spec_spawns(chance),
{
    chance >= SPAWN_THRESHOLD
}

/// Lowest and highest speed of an enemy that appears at `level`.
pub fn speed_range(level: u32) -> (range: (u64, u64))
    ensures
        range.0 == spec_slowest(level),
        range.1 == spec_fastest(level),
        range.0 <= range.1 <= 322_122_547_125_000,
{
    let scale: u64 = level as u64;
    (MIN_SPEED_PER_LEVEL * scale, MAX_SPEED_PER_LEVEL * scale)
}

/// Leftmost and rightmost position at which an enemy of side `size`
/// appears.
pub fn lane(size: u32, screen_width: u32) -> (range: (i64, i64))
    ensures
        range.0 == spec_lane_low(size, screen_width),
        range.1 == spec_lane_high(size, screen_width),
        -2_147_483_648 <= range.0 <= range.1 <= 4_294_967_295,
{
    let margin: i64 = (size as i64 + 1) / 2;
    let far: i64 = screen_width as i64 - margin;
    if margin <= far {
        (margin, far)
    } else {
        (far, margin)
    }
}

/// The enemy that the three draws give.
pub fn newcomer(size: u32, speed: u64, x: i64) -> (enemy: Shape)
    ensures
        enemy == spec_newcomer(size, speed, x),
{
    Shape { size, speed, x, y: -(size as i64), collided: false }
}

/// Draws the side, the speed and the position of one enemy.
pub fn draw_enemy(level: u32, screen_width: u32) -> (enemy: Shape)
    ensures
        spec_admissible(enemy, level, screen_width),
{
    let size: u32 = uniform_between(MIN_ENEMY_SIZE as i64, MAX_ENEMY_SIZE as i64) as u32;
    let speeds = speed_range(level);
    let speed: u64 = uniform_between(speeds.0 as i64, speeds.1 as i64) as u64;
    let places = lane(size, screen_width);
    let x: i64 = uniform_between(places.0, places.1);
    newcomer(size, speed, x)
}

/// Makes the chance draw of one frame and, where it succeeds, draws the
/// enemy.
pub fn spawn(level: u32, screen_width: u32) -> (enemy: Option<Shape>)
    ensures
        match enemy {
            Some(e) => spec_admissible(e, level, screen_width),
            None => true,
        },
{
    let chance: i64 = uniform_between(0, CHANCE_OUTCOMES);
    spawn_on(chance, level, screen_width)
}

/// The spawner's answer to a chance draw that has been made: an enemy comes
/// exactly when the draw lets one in, and then it is drawn for `level` and
/// `screen_width`.
pub fn spawn_on(chance: i64, level: u32, screen_width: u32) -> (enemy: Option<Shape>)
    ensures
        (enemy is Some) == spec_spawns(chance),
        match enemy {
            Some(e) => spec_admissible(e, level, screen_width),
            None => true,
        },
{
    if spawns(chance) {
        Some(draw_enemy(level, screen_width))
    } else {
        None
    }
}

/// An enemy that may appear has a positive side, starts wholly above the top
/// of the screen, is inside the band that pruning keeps, and, on a screen
/// wider than it, lies between the left and the right edge.
pub proof fn lemma_admissible_start(
    enemy: Shape,
    level: u32,
    screen_width: u32,
    screen_height: u32,
)
    requires
        spec_admissible(enemy, level, screen_width),
    ensures
        enemy.wf(),
        enemy.spec_rect().bottom < 0,
        enemy.spec_enemy_stays(screen_height),
        screen_width > enemy.size ==> 0 <= enemy.spec_rect().left && enemy.spec_rect().right <= 2
            * screen_width,
{
}

} // verus!
