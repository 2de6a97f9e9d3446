use vstd::prelude::*;

use crate::geom::{Rect, RectM, rect_wf, COORD_BOUND, SCREEN_HEIGHT, SCREEN_WIDTH};

verus! {

/// How far the player moves per frame on a held key.
pub const PLAYER_VELOCITY: i32 = 5;

/// Side length of the square an asteroid occupies.
pub const ASTEROID_RADIUS: i32 = 20;

/// Downward drift of an asteroid per frame.
pub const ASTEROID_VELOCITY: i32 = 2;

/// Vertical start position of a freshly spawned asteroid, just under the
/// top edge of the arena.
pub const ASTEROID_START_Y: i32 = 6;

/// Width of a projectile.
pub const PROJECTILE_WIDTH: i32 = 5;

/// Height of a projectile.
pub const PROJECTILE_HEIGHT: i32 = 15;

/// Per-frame velocity of a projectile; negative, so it climbs.
pub const PROJECTILE_VELOCITY: i32 = -5;

/// A two-component integer vector, used for per-frame velocities.
#[derive(Clone, Copy, Debug, PartialEq, Eq, Structural)]
pub struct Vec2 {
    pub x: i32,
    pub y: i32,
}

/// Mathematical model shared by asteroids and projectiles: a rectangle, a
/// velocity and the transient collision mark.
#[verifier::ext_equal]
pub ghost struct EntityM {
    pub rect: RectM,
    pub vx: int,
    pub vy: int,
    pub collided: bool,
}

/// An asteroid: a square drifting down the arena until it leaves the screen
/// or is hit by a projectile.
#[derive(Clone, Copy, Debug, PartialEq, Eq, Structural)]
pub struct Asteroid {
    pub rect: Rect,
    pub vel: Vec2,
    pub has_collided: bool,
}

impl View for Asteroid {
    type V = EntityM;

    open spec fn view(&self) -> EntityM {
        EntityM {
            rect: self.rect@,
            vx: self.vel.x as int,
            vy: self.vel.y as int,
            collided: self.has_collided,
        }
    }
}

/// A projectile: a small rectangle climbing from the player's position until
/// it leaves the screen or hits an asteroid.
#[derive(Clone, Copy, Debug, PartialEq, Eq, Structural)]
pub struct Projectile {
    pub rect: Rect,
    pub vel: Vec2,
    pub has_collided: bool,
}

impl View for Projectile {
    type V = EntityM;

    open spec fn view(&self) -> EntityM {
        EntityM {
            rect: self.rect@,
            vx: self.vel.x as int,
            vy: self.vel.y as int,
            collided: self.has_collided,
        }
    }
}

/// The model of an asteroid as the spawner builds it at horizontal
/// position `x`: fixed start height, fixed size, fixed downward velocity,
/// not collided.
pub open spec fn asteroid_model(x: int) -> EntityM {
    EntityM {
        rect: RectM {
            x: x,
            y: ASTEROID_START_Y as int,
            w: ASTEROID_RADIUS as int,
            h: ASTEROID_RADIUS as int,
        },
        vx: 0,
        vy: ASTEROID_VELOCITY as int,
        collided: false,
    }
}

/// An asteroid as it comes out of the spawner: the fixed shape of
/// `asteroid_model`, at some horizontal position inside the arena.
pub open spec fn fresh_asteroid(e: EntityM) -> bool {
    &&& 0 <= e.rect.x < SCREEN_WIDTH
    &&& e == asteroid_model(e.rect.x)
}

/// The model of a projectile fired from player position `p`: the player's
/// corner, fixed size, fixed upward velocity, not collided.
pub open spec fn projectile_model(p: RectM) -> EntityM {
    EntityM {
        rect: RectM {
            x: p.x,
            y: p.y,
            w: PROJECTILE_WIDTH as int,
            h: PROJECTILE_HEIGHT as int,
        },
        vx: 0,
        vy: PROJECTILE_VELOCITY as int,
        collided: false,
    }
}

/// A well-formed asteroid: bounded rectangle and the fixed asteroid
/// velocity, which every constructor establishes and every frame keeps.
pub open spec fn asteroid_wf(e: EntityM) -> bool {
    &&& rect_wf(e.rect)
    &&& e.vx == 0
    &&& e.vy == ASTEROID_VELOCITY
}

/// A well-formed projectile: bounded rectangle and the fixed projectile
/// velocity.
pub open spec fn projectile_wf(e: EntityM) -> bool {
    &&& rect_wf(e.rect)
    &&& e.vx == 0
    &&& e.vy == PROJECTILE_VELOCITY
}

/// An entity after one frame of drift: the rectangle translated by the
/// velocity, everything else unchanged.
pub open spec fn moved_entity(e: EntityM) -> EntityM {
    EntityM { rect: RectM { x: e.rect.x + e.vx, y: e.rect.y + e.vy, ..e.rect }, ..e }
}

/// An entity stays in the live collection only while its vertical position
/// is strictly inside the arena's height band.
pub open spec fn entity_on_screen(e: EntityM) -> bool {
    0 < e.rect.y < SCREEN_HEIGHT
}

/// Relies on `rand::Rng::gen_range`, called on `rand::thread_rng`: returns a
/// uniformly sampled value of the half-open range `lo..hi`, and panics only
/// on an empty range, which the precondition rules out. Nothing is promised
/// about which value comes back beyond its bounds.
#[verifier::external_body]
pub(crate) fn random_in_range(lo: i32, hi: i32) -> (r: i32)
    requires
        lo < hi,
    ensures
        lo <= r < hi,
{
    rand::Rng::gen_range(&mut rand::thread_rng(), lo..hi)
}

impl Asteroid {
    /// An asteroid of the fixed spawn shape at the given horizontal
    /// position.
    pub fn new_at(x: i32) -> (a: Asteroid)
        requires
            0 <= x < SCREEN_WIDTH,
        ensures
            a@ == asteroid_model(x as int),
            fresh_asteroid(a@),
            asteroid_wf(a@),
    {
        Asteroid {
            rect: Rect::new(x, ASTEROID_START_Y, ASTEROID_RADIUS, ASTEROID_RADIUS),
            vel: Vec2 { x: 0, y: ASTEROID_VELOCITY },
            has_collided: false,
        }
    }

    /// A freshly spawned asteroid at a random horizontal position, uniform
    /// over the arena width.
    pub fn new() -> (a: Asteroid)
        ensures
            fresh_asteroid(a@),
            asteroid_wf(a@),
    {
        let x = random_in_range(0, SCREEN_WIDTH);
        Asteroid::new_at(x)
    }
}

impl Projectile {
    /// A projectile fired from the player's current position.
    pub fn new(player_pos: Rect) -> (p: Projectile)
        ensures
            p@ == projectile_model(player_pos@),
    {
        Projectile {
            rect: Rect::new(player_pos.x, player_pos.y, PROJECTILE_WIDTH, PROJECTILE_HEIGHT),
            vel: Vec2 { x: 0, y: PROJECTILE_VELOCITY },
            has_collided: false,
        }
    }
}

} // verus!
