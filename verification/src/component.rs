//! The components of rollback-tracked state.
//!
//! Everything here enters determinism: it is captured in snapshots,
//! restored on rollback, and folded into the cross-peer checksum.
//! Presentation-only state (animation frames, camera position, audio)
//! stays out and is never resimulated.

use vstd::prelude::*;

verus! {

/// Which player slot an entity belongs to.
#[derive(Clone, Copy, Debug, PartialEq, Eq, Structural)]
pub struct Player {
    pub id: usize,
}

/// Velocity in fixed-point subunits per frame.
#[derive(Clone, Copy, Debug, PartialEq, Eq, Structural)]
pub struct Velocity {
    pub x: i64,
    pub y: i64,
}

impl Default for Velocity {
    /// At rest.
    fn default() -> (r: Velocity)
        ensures
            r.x == 0 && r.y == 0,
    {
        Velocity { x: 0, y: 0 }
    }
}

/// The four cardinal directions a player can face.
#[derive(Clone, Copy, Debug, PartialEq, Eq, Structural)]
pub enum Facing {
    Up,
    Right,
    Down,
    Left,
}

/// Frames an entity has left to live.
#[derive(Clone, Copy, Debug, PartialEq, Eq, Structural)]
pub struct Lifetime(pub usize);

/// The last aim angle a player reported, cached across ticks.
#[derive(Clone, Copy, Debug, PartialEq, Eq, Structural)]
pub struct InputAngle(pub u8);

/// Whether a player may shoot, and the frames since the last shot.
#[derive(Clone, Copy, Debug, PartialEq, Eq, Structural)]
pub struct CanShoot {
    pub value: bool,
    pub since_last: usize,
}

/// Which player slot shot a bullet.
#[derive(Clone, Copy, Debug, PartialEq, Eq, Structural)]
pub struct Bullet {
    pub shot_by: usize,
}

/// Hit points left.
#[derive(Clone, Copy, Debug, PartialEq, Eq, Structural)]
pub struct Health(pub i32);

/// Which player slot last damaged this entity.
#[derive(Clone, Copy, Debug, PartialEq, Eq, Structural)]
pub struct LastDamagedBy {
    pub id: usize,
}

/// Score in points.
#[derive(Clone, Copy, Debug, PartialEq, Eq, Structural)]
pub struct Points(pub u32);

/// Which of a player's four wall sensors touch solid terrain.
#[derive(Clone, Copy, Debug, PartialEq, Eq, Structural)]
pub struct WallContactState {
    pub up: bool,
    pub down: bool,
    pub left: bool,
    pub right: bool,
}

impl Default for WallContactState {
    /// Touching nothing.
    fn default() -> (r: WallContactState)
        ensures
            !r.up && !r.down && !r.left && !r.right,
    {
        WallContactState { up: false, down: false, left: false, right: false }
    }
}

/// The facing a quantized aim angle selects: the quarter of the turn the
/// angle points into, with the turn's last sliver wrapping back to up.
pub open spec fn spec_facing_from_angle(angle: int) -> Facing {
    if angle < 32 {
        Facing::Up
    } else if angle < 96 {
        Facing::Right
    } else if angle < 160 {
        Facing::Down
    } else if angle < 224 {
        Facing::Left
    } else {
        Facing::Up
    }
}

/// Derive the facing from a quantized aim angle. Presentation reads
/// this each frame; the facing itself is never rollback-tracked.
pub fn facing_from_angle(angle: u8) -> (r: Facing)
    ensures
        r == spec_facing_from_angle(angle as int),
{
    if angle < 32 {
        Facing::Up
    } else if angle < 96 {
        Facing::Right
    } else if angle < 160 {
        Facing::Down
    } else if angle < 224 {
        Facing::Left
    } else {
        Facing::Up
    }
}

} // verus!
