//! The square body shared by the player, the enemies and the bullets.

use vstd::prelude::*;
use crate::units::{distance, round_to_pixels, rounded_pixels, saturate, saturated, travel};

verus! {

/// An axis-aligned box given by its edges, in half-units: every coordinate is
/// twice the value in sub-pixel units, so that the edges of a box of odd side
/// stay whole.
#[derive(Clone, Copy, Debug, PartialEq, Eq, Structural)]
pub struct Rect {
    pub left: i128,
    pub top: i128,
    pub right: i128,
    pub bottom: i128,
}

impl Rect {
    /// The two boxes share at least one point; touching edges count.
    pub open spec fn spec_overlaps(self, other: Rect) -> bool {
        &&& self.left <= other.right
        &&& self.right >= other.left
        &&& self.top <= other.bottom
        &&& self.bottom >= other.top
    }

    /// Tells whether the two boxes share at least one point.
    pub fn overlaps(&self, other: &Rect) -> (hit: bool)
        ensures
            hit == self.spec_overlaps(*other),
    {
        self.left <= other.right && self.right >= other.left && self.top <= other.bottom
            && self.bottom >= other.top
    }
}

/// The sprite family an enemy is drawn with, chosen by its side.
#[derive(Clone, Copy, Debug, PartialEq, Eq, Structural)]
pub enum Tier {
    Small,
    Medium,
    Large,
}

/// A positioned, sized, moving body.
#[derive(Clone, Copy, Debug, PartialEq, Eq, Structural)]
pub struct Shape {
    /// Side of the square bounding box, in units.
    pub size: u32,
    /// Speed, in units per second.
    pub speed: u64,
    /// Horizontal centre, in units.
    pub x: i64,
    /// Vertical centre, in units; grows downwards.
    pub y: i64,
    /// Set once the body has been consumed by a collision.
    pub collided: bool,
}

impl Shape {
    /// A body has a positive side.
    pub open spec fn wf(self) -> bool {
        self.size > 0
    }

    /// The bounding box: a square of side `size` centred on the position.
    pub open spec fn spec_rect(self) -> Rect {
        Rect {
            left: (2 * self.x - self.size) as i128,
            top: (2 * self.y - self.size) as i128,
            right: (2 * self.x + self.size) as i128,
            bottom: (2 * self.y + self.size) as i128,
        }
    }

    /// The bounding boxes of the two bodies share at least one point.
    pub open spec fn spec_collides_with(self, other: Shape) -> bool {
        self.spec_rect().spec_overlaps(other.spec_rect())
    }

    /// The body after falling for `dt_micros` at its own speed.
    pub open spec fn spec_descended(self, dt_micros: u32) -> Shape {
        Shape { y: saturated(self.y + travel(self.speed, dt_micros)) as i64, ..self }
    }

    /// The body after rising for `dt_micros` at its own speed.
    pub open spec fn spec_ascended(self, dt_micros: u32) -> Shape {
        Shape { y: saturated(self.y - travel(self.speed, dt_micros)) as i64, ..self }
    }

    /// The body with its deletion mark set.
    pub open spec fn spec_marked(self) -> Shape {
        Shape { collided: true, ..self }
    }

    /// An enemy is still in the visible band while its centre has not sunk a
    /// full side below the bottom of a screen `screen_height` units high.
    pub open spec fn spec_enemy_in_band(self, screen_height: u32) -> bool {
        self.y < screen_height + self.size
    }

    /// A bullet is still in the visible band while its lower edge is below
    /// the top of the screen.
    pub open spec fn spec_bullet_in_band(self) -> bool {
        2 * self.y + self.size > 0
    }

    /// An enemy survives pruning when it is unmarked and in the band.
    pub open spec fn spec_enemy_stays(self, screen_height: u32) -> bool {
        !self.collided && self.spec_enemy_in_band(screen_height)
    }

    /// A bullet survives pruning when it is unmarked and in the band.
    pub open spec fn spec_bullet_stays(self) -> bool {
        !self.collided && self.spec_bullet_in_band()
    }

    /// Score awarded for destroying the body: its side in whole pixels.
    pub open spec fn spec_points(self) -> int {
        rounded_pixels(self.size)
    }

    /// Small from 16 pixels up to 32, medium from 32 up to 48, large
    /// otherwise.
    pub open spec fn spec_tier(self) -> Tier {
        if 16_000 <= self.size < 32_000 {
            Tier::Small
        } else if 32_000 <= self.size < 48_000 {
            Tier::Medium
        } else {
            Tier::Large
        }
    }

    /// The bounding box, in half-units.
    pub fn rect(&self) -> (r: Rect)
        ensures
            r == self.spec_rect(),
            r.left == 2 * self.x - self.size,
            r.top == 2 * self.y - self.size,
            r.right == 2 * self.x + self.size,
            r.bottom == 2 * self.y + self.size,
    {
        let side: i128 = self.size as i128;
        let cx: i128 = 2 * (self.x as i128);
        let cy: i128 = 2 * (self.y as i128);
        Rect { left: cx - side, top: cy - side, right: cx + side, bottom: cy + side }
    }

    /// Tells whether the bounding boxes of the two bodies overlap.
    pub fn collides_with(&self, other: &Shape) -> (hit: bool)
        ensures
            hit == self.spec_collides_with(*other),
    {
        self.rect().overlaps(&other.rect())
    }

    /// The body after falling for `dt_micros`; the position stops at the end
    /// of its range.
    pub fn descended(&self, dt_micros: u32) -> (moved: Shape)
        ensures
            moved == self.spec_descended(dt_micros),
    {
        let y: i64 = saturate(self.y as i128 + distance(self.speed, dt_micros));
        Shape { size: self.size, speed: self.speed, x: self.x, y, collided: self.collided }
    }

    /// The body after rising for `dt_micros`; the position stops at the end
    /// of its range.
    pub fn ascended(&self, dt_micros: u32) -> (moved: Shape)
        ensures
            moved == self.spec_ascended(dt_micros),
    {
        let y: i64 = saturate(self.y as i128 - distance(self.speed, dt_micros));
        Shape { size: self.size, speed: self.speed, x: self.x, y, collided: self.collided }
    }

    /// The body with its deletion mark set.
    pub fn marked(&self) -> (hit: Shape)
        ensures
            hit == self.spec_marked(),
    {
        Shape { size: self.size, speed: self.speed, x: self.x, y: self.y, collided: true }
    }

    /// Tells whether pruning keeps the body as an enemy.
    pub fn enemy_stays(&self, screen_height: u32) -> (stays: bool)
        ensures
            stays == self.spec_enemy_stays(screen_height),
    {
        !self.collided && (self.y as i128) < screen_height as i128 + self.size as i128
    }

    /// Tells whether pruning keeps the body as a bullet.
    pub fn bullet_stays(&self) -> (stays: bool)
        ensures
            stays == self.spec_bullet_stays(),
    {
        !self.collided && 2 * (self.y as i128) + self.size as i128 > 0
    }

    /// Score awarded for destroying the body.
    pub fn points(&self) -> (p: u32)
        ensures
            p == self.spec_points(),
            p <= 4_294_967,
    {
        round_to_pixels(self.size)
    }

    /// The sprite family the body is drawn with as an enemy.
    pub fn tier(&self) -> (t: Tier)
        ensures
            t == self.spec_tier(),
    {
        if 16_000 <= self.size && self.size < 32_000 {
            Tier::Small
        } else if 32_000 <= self.size && self.size < 48_000 {
            Tier::Medium
        } else {
            Tier::Large
        }
    }
}

/// Two bodies collide exactly when, on each axis, the distance between their
/// centres is at most half the sum of their sides.
pub proof fn lemma_collision_by_distance(a: Shape, b: Shape)
    ensures
        a.spec_collides_with(b) <==> {
            &&& -(a.size + b.size) <= 2 * (a.x - b.x) <= a.size + b.size
            &&& -(a.size + b.size) <= 2 * (a.y - b.y) <= a.size + b.size
        },
{
}

/// Colliding is mutual: whichever body asks, the answer is the same.
pub proof fn lemma_collision_symmetric(a: Shape, b: Shape)
    ensures
        a.spec_collides_with(b) == b.spec_collides_with(a),
{
}

/// Moving a body changes its vertical position only, and in the direction of
/// travel.
pub proof fn lemma_motion_is_vertical(s: Shape, dt_micros: u32)
    ensures
        s.spec_descended(dt_micros) == (Shape { y: s.spec_descended(dt_micros).y, ..s }),
        s.spec_ascended(dt_micros) == (Shape { y: s.spec_ascended(dt_micros).y, ..s }),
        s.spec_descended(dt_micros).y >= s.y,
        s.spec_ascended(dt_micros).y <= s.y,
{
    assert(travel(s.speed, dt_micros) >= 0) by (nonlinear_arith)
        requires
            travel(s.speed, dt_micros) == (s.speed as int * dt_micros as int) / 1_000_000,
            s.speed >= 0,
            dt_micros >= 0,
    ;
}

} // verus!
