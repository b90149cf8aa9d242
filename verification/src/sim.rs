//! The deterministic simulation step and the rollback state registry.
//!
//! `GameSim` is exactly the rollback-tracked state: player slots, live
//! bullets, the random number generator and the frame counter. The step
//! is a pure function of that state, this frame's per-slot input set and
//! the static world, with a fixed internal ordering that is itself part
//! of the determinism contract. Re-invoking it for the same frame with
//! corrected inputs is safe: nothing outside this state is touched.

use vstd::prelude::*;

use crate::angle::angle_to_vec;
use crate::angle::spec_sin_byte;
use crate::collision::hitbox_collision;
use crate::collision::isqrt;
use crate::collision::lemma_isqrt_at_least;
use crate::collision::spec_isqrt;
use crate::collision::hitbox_intersects;
use crate::collision::spec_hitbox_collision;
use crate::collision::spec_hitbox_intersects;
use crate::collision::Hitbox;
use crate::collision::WallSensors;
use crate::component::Bullet;
use crate::component::CanShoot;
use crate::component::Health;
use crate::component::InputAngle;
use crate::component::LastDamagedBy;
use crate::component::Lifetime;
use crate::component::Player;
use crate::component::Points;
use crate::component::Velocity;
use crate::component::WallContactState;
use crate::input::PlayerInput;
use crate::rand::lcg_scaled;
use crate::rand::Rng;
use crate::session::NUM_PLAYERS;

verus! {

/// Frames a player must wait between shots.
pub const SHOOT_COOLDOWN: usize = 25;

/// Player movement speed, in subunits per frame (1.4 pixels).
pub const MOVE_SPEED: i64 = 358;

/// Direction components at or below this are snapped to the axis.
pub const SNAP_EPS: i64 = 5;

/// Bullet speed, in subunits per frame (2.5 pixels).
pub const BULLET_SPEED: i64 = 640;

/// Frames a bullet lives after being shot.
pub const BULLET_LIFETIME: usize = 150;

/// A bullet spawns this many multiples of the unit direction away from
/// the shooter (16 pixels).
pub const BULLET_SPAWN_OFFSET: i64 = 16;

/// Half extent of the player's hull, in subunits (4.1 pixels).
pub const PLAYER_HALF: i64 = 1050;

/// Thickness of a wall sensor, in subunits (0.05 pixels).
pub const SENSOR_EPS: i64 = 13;

/// The bullet hitbox: offset and radius in subunits (3 and 2.5 pixels).
pub const BULLET_HITBOX_OFFSET: i64 = 768;

/// The bullet hitbox radius in subunits (2.5 pixels).
pub const BULLET_RADIUS: i64 = 640;

/// Hit points a player respawns with.
pub const RESPAWN_HEALTH: i32 = 1;

/// The shot timer a player respawns with: long since any shot.
pub const RESPAWN_SINCE_LAST: usize = 999;

/// Player positions are clamped to this many subunits from the origin.
pub const POS_LIMIT: i64 = 0x20_0000;

/// Bullet positions are clamped to this many subunits from the origin.
pub const BULLET_POS_LIMIT: i64 = 0x30_0000;

/// Velocities stay within this many subunits per frame.
pub const VEL_LIMIT: i64 = 1024;

/// The static world holds at most this many terrain blocks.
pub const MAX_TERRAIN: usize = 0x1_0000;

/// The static world holds at most this many spawn points.
pub const MAX_SPAWNPOINTS: usize = 0x1_0000;

/// Players start the match this many subunits from the origin (16
/// pixels), slot 0 to the left and slot 1 to the right.
pub const PLAYER_START_X: i64 = 4096;

/// One solid block of the map: a rectangular hitbox at a fixed position.
#[derive(Clone, Copy, Debug, PartialEq, Eq, Structural)]
pub struct TerrainBlock {
    pub hitbox: Hitbox,
    pub x: i64,
    pub y: i64,
}

impl TerrainBlock {
    /// A well-formed hitbox at an in-bounds position.
    pub open spec fn wf(self) -> bool {
        &&& self.hitbox.wf()
        &&& -POS_LIMIT <= self.x <= POS_LIMIT
        &&& -POS_LIMIT <= self.y <= POS_LIMIT
    }
}

/// The static, never-rolled-back world: solid terrain and spawn points.
#[derive(Debug)]
pub struct StaticWorld {
    pub terrain: Vec<TerrainBlock>,
    pub spawnpoints: Vec<(i64, i64)>,
}

impl StaticWorld {
    /// Bounded block and spawn counts, everything in bounds, and at
    /// least one spawn point per player slot.
    pub open spec fn wf(self) -> bool {
        &&& self.terrain@.len() <= MAX_TERRAIN
        &&& forall|i: int| 0 <= i < self.terrain@.len() ==> self.terrain@[i].wf()
        &&& NUM_PLAYERS <= self.spawnpoints@.len() <= MAX_SPAWNPOINTS
        &&& forall|i: int|
            0 <= i < self.spawnpoints@.len() ==> -POS_LIMIT <= #[trigger] self.spawnpoints@[i].0
                <= POS_LIMIT && -POS_LIMIT <= self.spawnpoints@[i].1 <= POS_LIMIT
    }
}

/// The rollback-tracked state of one player slot.
#[derive(Clone, Copy, Debug, PartialEq, Eq, Structural)]
pub struct PlayerState {
    pub player: Player,
    pub pos_x: i64,
    pub pos_y: i64,
    pub velocity: Velocity,
    pub can_shoot: CanShoot,
    pub walls: WallContactState,
    pub health: Health,
    pub points: Points,
    pub input_angle: InputAngle,
    pub damaged: bool,
    pub last_damaged_by: LastDamagedBy,
}

impl PlayerState {
    /// Position and velocity in bounds, slot id as given.
    pub open spec fn wf(self, slot: int) -> bool {
        &&& self.player.id == slot
        &&& -POS_LIMIT <= self.pos_x <= POS_LIMIT
        &&& -POS_LIMIT <= self.pos_y <= POS_LIMIT
        &&& -VEL_LIMIT <= self.velocity.x <= VEL_LIMIT
        &&& -VEL_LIMIT <= self.velocity.y <= VEL_LIMIT
    }
}

/// The rollback-tracked state of one live bullet.
#[derive(Clone, Copy, Debug, PartialEq, Eq, Structural)]
pub struct BulletState {
    pub bullet: Bullet,
    pub pos_x: i64,
    pub pos_y: i64,
    pub vel_x: i64,
    pub vel_y: i64,
    pub lifetime: Lifetime,
}

impl BulletState {
    /// Shot by a real slot, in bounds, with life left.
    pub open spec fn wf(self) -> bool {
        &&& self.bullet.shot_by < NUM_PLAYERS
        &&& -BULLET_POS_LIMIT <= self.pos_x <= BULLET_POS_LIMIT
        &&& -BULLET_POS_LIMIT <= self.pos_y <= BULLET_POS_LIMIT
        &&& -VEL_LIMIT <= self.vel_x <= VEL_LIMIT
        &&& -VEL_LIMIT <= self.vel_y <= VEL_LIMIT
        &&& 1 <= self.lifetime.0 <= BULLET_LIFETIME
    }
}

/// The mathematical value of the rollback-tracked state.
#[verifier::ext_equal]
pub ghost struct SimSnapshot {
    pub players: Seq<PlayerState>,
    pub bullets: Seq<BulletState>,
    pub rng: Rng,
    pub frame: u64,
}

impl SimSnapshot {
    /// Exactly one slot per player, everything well-formed.
    pub open spec fn wf(self) -> bool {
        &&& self.players.len() == NUM_PLAYERS
        &&& forall|i: int| 0 <= i < self.players.len() ==> (#[trigger] self.players[i]).wf(i)
        &&& forall|i: int| 0 <= i < self.bullets.len() ==> (#[trigger] self.bullets[i]).wf()
        &&& self.rng.inv()
    }
}

/// The rollback-tracked state: the enumerated registry of everything
/// that must be captured, restored and checksummed. Nothing else in the
/// application enters determinism.
#[derive(Clone, Debug)]
pub struct GameSim {
    pub players: Vec<PlayerState>,
    pub bullets: Vec<BulletState>,
    pub rng: Rng,
    pub frame: u64,
}

impl View for GameSim {
    type V = SimSnapshot;

    open spec fn view(&self) -> SimSnapshot {
        SimSnapshot { players: self.players@, bullets: self.bullets@, rng: self.rng, frame: self.frame }
    }
}

/// The player's hull hitbox, shared by every slot.
pub open spec fn spec_player_hitbox() -> Hitbox {
    Hitbox::Rect { offset_x: 0, offset_y: 0, half_w: PLAYER_HALF, half_h: PLAYER_HALF }
}

/// The player's hull hitbox.
pub fn player_hitbox() -> (r: Hitbox)
    ensures
        r == spec_player_hitbox(),
        r.wf(),
{
    Hitbox::Rect { offset_x: 0, offset_y: 0, half_w: PLAYER_HALF, half_h: PLAYER_HALF }
}

/// The bullet hitbox, shared by every bullet.
pub open spec fn spec_bullet_hitbox() -> Hitbox {
    Hitbox::Circle {
        offset_x: BULLET_HITBOX_OFFSET,
        offset_y: BULLET_HITBOX_OFFSET,
        radius: BULLET_RADIUS,
    }
}

/// The bullet hitbox.
pub fn bullet_hitbox() -> (r: Hitbox)
    ensures
        r == spec_bullet_hitbox(),
        r.wf(),
{
    Hitbox::Circle {
        offset_x: BULLET_HITBOX_OFFSET,
        offset_y: BULLET_HITBOX_OFFSET,
        radius: BULLET_RADIUS,
    }
}

/// The four thin wall sensors just outside the player's hull.
pub open spec fn spec_wall_sensors() -> WallSensors {
    WallSensors {
        up: Hitbox::Rect {
            offset_x: 0,
            offset_y: PLAYER_HALF,
            half_w: (PLAYER_HALF - SENSOR_EPS) as i64,
            half_h: SENSOR_EPS,
        },
        down: Hitbox::Rect {
            offset_x: 0,
            offset_y: (-PLAYER_HALF) as i64,
            half_w: (PLAYER_HALF - SENSOR_EPS) as i64,
            half_h: SENSOR_EPS,
        },
        left: Hitbox::Rect {
            offset_x: (-PLAYER_HALF) as i64,
            offset_y: 0,
            half_w: SENSOR_EPS,
            half_h: (PLAYER_HALF - SENSOR_EPS) as i64,
        },
        right: Hitbox::Rect {
            offset_x: PLAYER_HALF,
            offset_y: 0,
            half_w: SENSOR_EPS,
            half_h: (PLAYER_HALF - SENSOR_EPS) as i64,
        },
    }
}

/// The four wall sensors.
pub fn wall_sensors() -> (r: WallSensors)
    ensures
        r == spec_wall_sensors(),
        r.wf(),
{
    WallSensors {
        up: Hitbox::Rect {
            offset_x: 0,
            offset_y: PLAYER_HALF,
            half_w: PLAYER_HALF - SENSOR_EPS,
            half_h: SENSOR_EPS,
        },
        down: Hitbox::Rect {
            offset_x: 0,
            offset_y: -PLAYER_HALF,
            half_w: PLAYER_HALF - SENSOR_EPS,
            half_h: SENSOR_EPS,
        },
        left: Hitbox::Rect {
            offset_x: -PLAYER_HALF,
            offset_y: 0,
            half_w: SENSOR_EPS,
            half_h: PLAYER_HALF - SENSOR_EPS,
        },
        right: Hitbox::Rect {
            offset_x: PLAYER_HALF,
            offset_y: 0,
            half_w: SENSOR_EPS,
            half_h: PLAYER_HALF - SENSOR_EPS,
        },
    }
}

/// The state a player slot holds at the start of a round: at rest, able
/// to shoot, touching nothing, full respawn health, aim up.
pub open spec fn spec_base_player(slot: int, x: i64, y: i64) -> PlayerState {
    PlayerState {
        player: Player { id: slot as usize },
        pos_x: x,
        pos_y: y,
        velocity: Velocity { x: 0, y: 0 },
        can_shoot: CanShoot { value: true, since_last: RESPAWN_SINCE_LAST },
        walls: WallContactState { up: false, down: false, left: false, right: false },
        health: Health(RESPAWN_HEALTH),
        points: Points(0),
        input_angle: InputAngle(0),
        damaged: false,
        last_damaged_by: LastDamagedBy { id: 0 },
    }
}

impl GameSim {
    /// Whether the tracked state is well-formed.
    pub open spec fn wf(self) -> bool {
        self@.wf()
    }

    /// A fresh match: both players at their starting marks, no bullets,
    /// the generator at the given seed, frame zero.
    pub fn new(seed: u64) -> (r: GameSim)
        requires
            seed < crate::rand::RNG_MAX_SEED,
        ensures
            r.wf(),
            r@.players == seq![
                spec_base_player(0, (-PLAYER_START_X) as i64, 0),
                spec_base_player(1, PLAYER_START_X, 0),
            ],
            r@.bullets.len() == 0,
            r@.rng.state() == seed,
            r@.frame == 0,
    {
        let mut players: Vec<PlayerState> = Vec::new();
        players.push(base_player(0, -PLAYER_START_X, 0));
        players.push(base_player(1, PLAYER_START_X, 0));
        proof {
            assert(players@ =~= seq![
                spec_base_player(0, (-PLAYER_START_X) as i64, 0),
                spec_base_player(1, PLAYER_START_X, 0),
            ]);
        }
        GameSim { players, bullets: Vec::new(), rng: Rng::new(seed), frame: 0 }
    }
}

/// Build the round-start state for a slot at a position.
fn base_player(slot: usize, x: i64, y: i64) -> (r: PlayerState)
    requires
        slot < NUM_PLAYERS,
        -POS_LIMIT <= x <= POS_LIMIT,
        -POS_LIMIT <= y <= POS_LIMIT,
    ensures
        r == spec_base_player(slot as int, x, y),
        r.wf(slot as int),
{
    PlayerState {
        player: Player { id: slot },
        pos_x: x,
        pos_y: y,
        velocity: Velocity { x: 0, y: 0 },
        can_shoot: CanShoot { value: true, since_last: RESPAWN_SINCE_LAST },
        walls: WallContactState { up: false, down: false, left: false, right: false },
        health: Health(RESPAWN_HEALTH),
        points: Points(0),
        input_angle: InputAngle(0),
        damaged: false,
        last_damaged_by: LastDamagedBy { id: 0 },
    }
}

/// Truncating multiply-then-divide with the sign handled explicitly:
/// the quotient of `v * num / den` rounded toward zero.
pub open spec fn spec_muldiv(v: int, num: int, den: int) -> int {
    if v >= 0 {
        (v * num) / den
    } else {
        -((-v * num) / den)
    }
}

/// Truncating multiply-then-divide toward zero.
fn muldiv(v: i64, num: i64, den: i64) -> (r: i64)
    requires
        -0x10_0000 <= v <= 0x10_0000,
        0 < num <= 0x10_0000,
        0 < den,
    ensures
        r == spec_muldiv(v as int, num as int, den as int),
        crate::collision::spec_abs(r as int) <= crate::collision::spec_abs(v as int) * num,
{
    proof {
        lemma_muldiv_bounds(v as int, num as int, den as int);
        assert(-0x10_0000 * 0x10_0000 <= v * num <= 0x10_0000 * 0x10_0000) by (nonlinear_arith)
            requires
                -0x10_0000 <= v <= 0x10_0000,
                0 < num <= 0x10_0000,
        ;
        assert(-0x10_0000 * 0x10_0000 <= -v * num <= 0x10_0000 * 0x10_0000) by (nonlinear_arith)
            requires
                -0x10_0000 <= v <= 0x10_0000,
                0 < num <= 0x10_0000,
        ;
    }
    if v >= 0 {
        (v * num) / den
    } else {
        -((-v * num) / den)
    }
}

/// The truncating multiply-divide stays within `|v| * num`.
proof fn lemma_muldiv_bounds(v: int, num: int, den: int)
    requires
        -0x10_0000 <= v <= 0x10_0000,
        0 < num <= 0x10_0000,
        0 < den,
    ensures
        0 <= v ==> 0 <= (v * num) / den <= v * num,
        v < 0 ==> 0 <= (-v * num) / den <= -v * num,
        crate::collision::spec_abs(spec_muldiv(v, num, den)) <= crate::collision::spec_abs(v) * num,
{
    if v >= 0 {
        assert(0 <= v * num <= 0x10_0000 * 0x10_0000) by (nonlinear_arith)
            requires
                0 <= v <= 0x10_0000,
                0 < num <= 0x10_0000,
        ;
        vstd::arithmetic::div_mod::lemma_div_pos_is_pos(v * num, den);
        vstd::arithmetic::div_mod::lemma_div_is_ordered_by_denominator(v * num, 1, den);
        assert((v * num) / 1 == v * num);
    } else {
        assert(0 <= -v * num <= 0x10_0000 * 0x10_0000) by (nonlinear_arith)
            requires
                -0x10_0000 <= v < 0,
                0 < num <= 0x10_0000,
        ;
        vstd::arithmetic::div_mod::lemma_div_pos_is_pos(-v * num, den);
        vstd::arithmetic::div_mod::lemma_div_is_ordered_by_denominator(-v * num, 1, den);
        assert((-v * num) / 1 == -v * num);
    }
}

/// The nearest point of `[-limit, limit]` to `v`.
fn clamp_coord(v: i64, limit: i64) -> (r: i64)
    requires
        0 < limit,
    ensures
        r == crate::collision::spec_clamp(v as int, -limit as int, limit as int),
        -limit <= r <= limit,
{
    if v < -limit {
        -limit
    } else if v > limit {
        limit
    } else {
        v
    }
}

/// If any player is out of health, the frame counter rewinds to zero,
/// which makes the next step respawn the round.
pub open spec fn spec_restart_on_death(s: SimSnapshot) -> SimSnapshot {
    if exists|i: int| 0 <= i < s.players.len() && s.players[i].health.0 <= 0 {
        SimSnapshot { frame: 0, ..s }
    } else {
        s
    }
}

/// One player slot after a reload tick: the shot timer advances, and
/// releasing the fire control re-arms the bow.
pub open spec fn spec_reload_one(p: PlayerState, input: PlayerInput) -> PlayerState {
    let since = if p.can_shoot.since_last == usize::MAX {
        usize::MAX
    } else {
        (p.can_shoot.since_last + 1) as usize
    };
    let value = if !input.spec_fire() && !p.can_shoot.value {
        true
    } else {
        p.can_shoot.value
    };
    PlayerState { can_shoot: CanShoot { value, since_last: since }, ..p }
}

/// Both players after a reload tick.
pub open spec fn spec_reload(s: SimSnapshot, inputs: (PlayerInput, PlayerInput)) -> SimSnapshot {
    SimSnapshot {
        players: seq![
            spec_reload_one(s.players[0], inputs.0),
            spec_reload_one(s.players[1], inputs.1),
        ],
        ..s
    }
}

/// One bullet advanced by its velocity, held inside the bullet range.
pub open spec fn spec_move_bullet(b: BulletState) -> BulletState {
    BulletState {
        pos_x: crate::collision::spec_clamp(
            b.pos_x + b.vel_x,
            -BULLET_POS_LIMIT as int,
            BULLET_POS_LIMIT as int,
        ) as i64,
        pos_y: crate::collision::spec_clamp(
            b.pos_y + b.vel_y,
            -BULLET_POS_LIMIT as int,
            BULLET_POS_LIMIT as int,
        ) as i64,
        ..b
    }
}

/// Every bullet advanced by its velocity.
pub open spec fn spec_move_bullets(s: SimSnapshot) -> SimSnapshot {
    SimSnapshot {
        bullets: Seq::new(s.bullets.len(), |i: int| spec_move_bullet(s.bullets[i])),
        ..s
    }
}

/// The bullets after their timers tick down: each loses one frame of
/// life, and the ones that reach zero are culled, in order.
pub open spec fn spec_age_bullets(bullets: Seq<BulletState>) -> Seq<BulletState>
    decreases bullets.len(),
{
    if bullets.len() == 0 {
        bullets
    } else {
        let rest = spec_age_bullets(bullets.drop_last());
        let b = bullets.last();
        if b.lifetime.0 <= 1 {
            rest
        } else {
            rest.push(BulletState { lifetime: Lifetime((b.lifetime.0 - 1) as usize), ..b })
        }
    }
}

/// The state after expired entities are culled.
pub open spec fn spec_despawn_after_lifetime(s: SimSnapshot) -> SimSnapshot {
    SimSnapshot { bullets: spec_age_bullets(s.bullets), ..s }
}

/// The frame counter advanced.
pub open spec fn spec_increment_frame(s: SimSnapshot) -> SimSnapshot {
    SimSnapshot {
        frame: if s.frame == u64::MAX {
            u64::MAX
        } else {
            (s.frame + 1) as u64
        },
        ..s
    }
}

impl GameSim {
    /// Rewind the frame counter when a player has died.
    fn restart_on_death(&mut self)
        requires
            old(self).wf(),
        ensures
            final(self).wf(),
            final(self)@ == spec_restart_on_death(old(self)@),
    {
        let dead0 = self.players[0].health.0 <= 0;
        let dead1 = self.players[1].health.0 <= 0;
        if dead0 || dead1 {
            self.frame = 0;
        }
        proof {
            if dead0 || dead1 {
                assert(self@ =~= spec_restart_on_death(old(self)@));
            } else {
                assert(forall|i: int|
                    0 <= i < old(self)@.players.len() ==> (#[trigger] old(
                        self,
                    )@.players[i]).health.0 > 0);
                assert(self@ =~= spec_restart_on_death(old(self)@));
            }
        }
    }

    /// Advance shot timers and re-arm released bows.
    fn reload(&mut self, inputs: (PlayerInput, PlayerInput))
        requires
            old(self).wf(),
        ensures
            final(self).wf(),
            final(self)@ == spec_reload(old(self)@, inputs),
    {
        let p0 = self.players[0];
        let p1 = self.players[1];
        self.players[0] = reload_one(p0, inputs.0);
        self.players[1] = reload_one(p1, inputs.1);
        proof {
            assert(self@.players =~= spec_reload(old(self)@, inputs).players);
            assert(self@ =~= spec_reload(old(self)@, inputs));
        }
    }

    /// Advance every bullet by its velocity.
    fn move_bullets(&mut self)
        requires
            old(self).wf(),
        ensures
            final(self).wf(),
            final(self)@ == spec_move_bullets(old(self)@),
    {
        let n = self.bullets.len();
        let mut i: usize = 0;
        while i < n
            invariant
                old(self).wf(),
                n == self.bullets@.len(),
                n == old(self)@.bullets.len(),
                i <= n,
                self@.players == old(self)@.players,
                self@.rng == old(self)@.rng,
                self@.frame == old(self)@.frame,
                forall|j: int|
                    0 <= j < i ==> self.bullets@[j] == spec_move_bullet(old(self)@.bullets[j]),
                forall|j: int| i <= j < n ==> self.bullets@[j] == old(self)@.bullets[j],
            decreases n - i,
        {
            let b = self.bullets[i];
            let moved = BulletState {
                pos_x: clamp_coord(b.pos_x + b.vel_x, BULLET_POS_LIMIT),
                pos_y: clamp_coord(b.pos_y + b.vel_y, BULLET_POS_LIMIT),
                ..b
            };
            self.bullets[i] = moved;
            i = i + 1;
        }
        proof {
            assert(self@.bullets =~= spec_move_bullets(old(self)@).bullets);
            assert(self@ =~= spec_move_bullets(old(self)@));
        }
    }

    /// Tick every lifetime down and cull what expired.
    fn despawn_after_lifetime(&mut self)
        requires
            old(self).wf(),
        ensures
            final(self).wf(),
            final(self)@ == spec_despawn_after_lifetime(old(self)@),
    {
        let n = self.bullets.len();
        let mut kept: Vec<BulletState> = Vec::new();
        let mut i: usize = 0;
        while i < n
            invariant
                old(self).wf(),
                n == self.bullets@.len(),
                i <= n,
                self@ == old(self)@,
                kept@ == spec_age_bullets(old(self)@.bullets.take(i as int)),
                forall|j: int| 0 <= j < kept@.len() ==> (#[trigger] kept@[j]).wf(),
            decreases n - i,
        {
            let b = self.bullets[i];
            proof {
                assert(old(self)@.bullets.take(i + 1 as int).drop_last() =~= old(
                    self,
                )@.bullets.take(i as int));
                assert(old(self)@.bullets.take(i + 1 as int).last() == old(self)@.bullets[i as int]);
            }
            if b.lifetime.0 > 1 {
                kept.push(BulletState { lifetime: Lifetime(b.lifetime.0 - 1), ..b });
            }
            i = i + 1;
        }
        proof {
            assert(old(self)@.bullets.take(n as int) =~= old(self)@.bullets);
        }
        self.bullets = kept;
        proof {
            assert(self@ =~= spec_despawn_after_lifetime(old(self)@));
        }
    }

    /// Advance the frame counter.
    fn increment_frame_count(&mut self)
        requires
            old(self).wf(),
        ensures
            final(self).wf(),
            final(self)@ == spec_increment_frame(old(self)@),
    {
        if self.frame < u64::MAX {
            self.frame = self.frame + 1;
        }
        proof {
            assert(self@ =~= spec_increment_frame(old(self)@));
        }
    }
}

/// Whether a sensor carried to a position touches any terrain block.
pub open spec fn spec_hits_terrain(
    sensor: Hitbox,
    pos: (i64, i64),
    terrain: Seq<TerrainBlock>,
) -> bool {
    exists|i: int|
        0 <= i < terrain.len() && spec_hitbox_intersects(
            sensor,
            pos,
            terrain[i].hitbox,
            (terrain[i].x, terrain[i].y),
        )
}

/// One player's wall contacts refreshed from the environment.
pub open spec fn spec_sense_one(p: PlayerState, terrain: Seq<TerrainBlock>) -> PlayerState {
    let sensors = spec_wall_sensors();
    PlayerState {
        walls: WallContactState {
            up: spec_hits_terrain(sensors.up, (p.pos_x, p.pos_y), terrain),
            down: spec_hits_terrain(sensors.down, (p.pos_x, p.pos_y), terrain),
            left: spec_hits_terrain(sensors.left, (p.pos_x, p.pos_y), terrain),
            right: spec_hits_terrain(sensors.right, (p.pos_x, p.pos_y), terrain),
        },
        ..p
    }
}

/// Both players' wall contacts refreshed: the sense-environment stage.
pub open spec fn spec_sense_walls(s: SimSnapshot, terrain: Seq<TerrainBlock>) -> SimSnapshot {
    SimSnapshot {
        players: seq![spec_sense_one(s.players[0], terrain), spec_sense_one(s.players[1], terrain)],
        ..s
    }
}

/// Wall sensing likewise cannot depend on the order in which the
/// terrain blocks are visited: a sensor reports contact exactly when
/// some block intersects it, whatever the enumeration.
pub proof fn lemma_hits_order_independent(
    sensor: Hitbox,
    pos: (i64, i64),
    terrain1: Seq<TerrainBlock>,
    terrain2: Seq<TerrainBlock>,
)
    requires
        terrain1.to_multiset() == terrain2.to_multiset(),
    ensures
        spec_hits_terrain(sensor, pos, terrain1) <==> spec_hits_terrain(sensor, pos, terrain2),
{
    broadcast use vstd::seq_lib::group_to_multiset_ensures;

    if spec_hits_terrain(sensor, pos, terrain1) {
        let i = choose|i: int|
            0 <= i < terrain1.len() && spec_hitbox_intersects(
                sensor,
                pos,
                terrain1[i].hitbox,
                (terrain1[i].x, terrain1[i].y),
            );
        assert(terrain1.contains(terrain1[i]));
        assert(terrain1.to_multiset().count(terrain1[i]) > 0);
        assert(terrain2.to_multiset().count(terrain1[i]) > 0);
        assert(terrain2.contains(terrain1[i]));
        let j = choose|j: int| 0 <= j < terrain2.len() && terrain2[j] == terrain1[i];
        assert(spec_hits_terrain(sensor, pos, terrain2));
    }
    if spec_hits_terrain(sensor, pos, terrain2) {
        let i = choose|i: int|
            0 <= i < terrain2.len() && spec_hitbox_intersects(
                sensor,
                pos,
                terrain2[i].hitbox,
                (terrain2[i].x, terrain2[i].y),
            );
        assert(terrain2.contains(terrain2[i]));
        assert(terrain2.to_multiset().count(terrain2[i]) > 0);
        assert(terrain1.to_multiset().count(terrain2[i]) > 0);
        assert(terrain1.contains(terrain2[i]));
        let j = choose|j: int| 0 <= j < terrain1.len() && terrain1[j] == terrain2[i];
        assert(spec_hits_terrain(sensor, pos, terrain1));
    }
}

/// A direction component within the snap band collapses to the axis.
pub open spec fn spec_snap(v: int) -> int {
    if -SNAP_EPS <= v <= SNAP_EPS {
        0
    } else {
        v
    }
}

/// A movement direction with the components that press into touched
/// walls zeroed out.
pub open spec fn spec_wall_clamp(x: int, y: int, walls: WallContactState) -> (int, int) {
    (
        if (walls.right && x > 0) || (walls.left && x < 0) {
            0
        } else {
            x
        },
        if (walls.up && y > 0) || (walls.down && y < 0) {
            0
        } else {
            y
        },
    )
}

/// The velocity a player's input produces: the unit direction of the
/// movement angle, snapped to the axes, clamped against touched walls,
/// then renormalized to the movement speed — or zero when the move bit
/// is clear or nothing is left after clamping.
pub open spec fn spec_move_velocity(p: PlayerState, input: PlayerInput) -> (int, int) {
    if !input.spec_moving() {
        (0, 0)
    } else {
        let dx = spec_snap(spec_sin_byte(input.dir as int));
        let dy = spec_snap(spec_sin_byte(((input.dir + 64) % 256) as int));
        let c = spec_wall_clamp(dx, dy, p.walls);
        let n2 = c.0 * c.0 + c.1 * c.1;
        if n2 == 0 {
            (0, 0)
        } else {
            let len = spec_isqrt(n2);
            (spec_muldiv(c.0, MOVE_SPEED as int, len), spec_muldiv(c.1, MOVE_SPEED as int, len))
        }
    }
}

/// One player after movement integration: the new velocity applied to
/// the position, held inside the playfield.
pub open spec fn spec_move_one(p: PlayerState, input: PlayerInput) -> PlayerState {
    let v = spec_move_velocity(p, input);
    PlayerState {
        velocity: Velocity { x: v.0 as i64, y: v.1 as i64 },
        pos_x: crate::collision::spec_clamp(
            p.pos_x + v.0,
            -POS_LIMIT as int,
            POS_LIMIT as int,
        ) as i64,
        pos_y: crate::collision::spec_clamp(
            p.pos_y + v.1,
            -POS_LIMIT as int,
            POS_LIMIT as int,
        ) as i64,
        ..p
    }
}

/// Both players after movement integration.
pub open spec fn spec_move_players(s: SimSnapshot, inputs: (PlayerInput, PlayerInput)) -> SimSnapshot {
    SimSnapshot {
        players: seq![spec_move_one(s.players[0], inputs.0), spec_move_one(s.players[1], inputs.1)],
        ..s
    }
}

/// The sum of the pushes every terrain block applies to a hitbox at a
/// position. The pushes are all computed against the same original
/// position and accumulate, so the result does not depend on the order
/// in which the blocks are visited.
pub open spec fn spec_push_sum(hb: Hitbox, pos: (i64, i64), terrain: Seq<TerrainBlock>) -> (
    int,
    int,
)
    decreases terrain.len(),
{
    if terrain.len() == 0 {
        (0, 0)
    } else {
        let rest = spec_push_sum(hb, pos, terrain.drop_last());
        let t = terrain.last();
        let p = spec_hitbox_collision(hb, pos, t.hitbox, (t.x, t.y));
        (rest.0 + p.0, rest.1 + p.1)
    }
}

/// The push accumulation as a left fold over the blocks.
pub open spec fn spec_push_folder(hb: Hitbox, pos: (i64, i64)) -> spec_fn(
    (int, int),
    TerrainBlock,
) -> (int, int) {
    |acc: (int, int), t: TerrainBlock|
        {
            let p = spec_hitbox_collision(hb, pos, t.hitbox, (t.x, t.y));
            (acc.0 + p.0, acc.1 + p.1)
        }
}

/// The recursive push sum is the left fold of the per-block pushes.
proof fn lemma_push_sum_is_fold(hb: Hitbox, pos: (i64, i64), terrain: Seq<TerrainBlock>)
    ensures
        spec_push_sum(hb, pos, terrain) == terrain.fold_left(
            (0int, 0int),
            spec_push_folder(hb, pos),
        ),
    decreases terrain.len(),
{
    if terrain.len() > 0 {
        lemma_push_sum_is_fold(hb, pos, terrain.drop_last());
    }
}

/// Peers may enumerate entities differently internally, so the ordering
/// guarantee of the step demands that collision resolution be
/// order-independent. It is: every block's push is computed against the
/// same pre-push position and the pushes are summed, and a sum does not
/// care in which order the blocks are visited.
pub proof fn lemma_push_sum_order_independent(
    hb: Hitbox,
    pos: (i64, i64),
    terrain1: Seq<TerrainBlock>,
    terrain2: Seq<TerrainBlock>,
)
    requires
        terrain1.to_multiset() == terrain2.to_multiset(),
    ensures
        spec_push_sum(hb, pos, terrain1) == spec_push_sum(hb, pos, terrain2),
{
    let f = spec_push_folder(hb, pos);
    assert(vstd::seq_lib::commutative_foldl(f)) by {
        assert forall|x: TerrainBlock, y: TerrainBlock, v: (int, int)| #[trigger] f(f(v, x), y)
            == f(f(v, y), x) by {
            let px = spec_hitbox_collision(hb, pos, x.hitbox, (x.x, x.y));
            let py = spec_hitbox_collision(hb, pos, y.hitbox, (y.x, y.y));
            assert(f(f(v, x), y) == (v.0 + px.0 + py.0, v.1 + px.1 + py.1));
            assert(f(f(v, y), x) == (v.0 + py.0 + px.0, v.1 + py.1 + px.1));
        }
    }
    lemma_push_sum_is_fold(hb, pos, terrain1);
    lemma_push_sum_is_fold(hb, pos, terrain2);
    vstd::seq_lib::lemma_fold_left_permutation(terrain1, terrain2, f, (0int, 0int));
}

/// One player pushed out of the terrain it overlaps, held inside the
/// playfield. Each overlapping block, rectangular or circular,
/// contributes a push that separates the player from it
/// (`crate::collision::lemma_collision_separates`).
pub open spec fn spec_terrain_one(p: PlayerState, terrain: Seq<TerrainBlock>) -> PlayerState {
    let sum = spec_push_sum(spec_player_hitbox(), (p.pos_x, p.pos_y), terrain);
    PlayerState {
        pos_x: crate::collision::spec_clamp(
            p.pos_x + sum.0,
            -POS_LIMIT as int,
            POS_LIMIT as int,
        ) as i64,
        pos_y: crate::collision::spec_clamp(
            p.pos_y + sum.1,
            -POS_LIMIT as int,
            POS_LIMIT as int,
        ) as i64,
        ..p
    }
}

/// Both players pushed out of solid terrain: the movement-blocking
/// collision stage.
pub open spec fn spec_player_terrain(s: SimSnapshot, terrain: Seq<TerrainBlock>) -> SimSnapshot {
    SimSnapshot {
        players: seq![
            spec_terrain_one(s.players[0], terrain),
            spec_terrain_one(s.players[1], terrain),
        ],
        ..s
    }
}

impl GameSim {
    /// Refresh both players' wall contact state from the terrain.
    fn sense_walls(&mut self, world: &StaticWorld)
        requires
            old(self).wf(),
            world.wf(),
        ensures
            final(self).wf(),
            final(self)@ == spec_sense_walls(old(self)@, world.terrain@),
    {
        let p0 = self.players[0];
        let p1 = self.players[1];
        self.players[0] = sense_one(p0, world, Ghost(0));
        self.players[1] = sense_one(p1, world, Ghost(1));
        proof {
            assert(self@.players =~= spec_sense_walls(old(self)@, world.terrain@).players);
            assert(self@ =~= spec_sense_walls(old(self)@, world.terrain@));
        }
    }

    /// Integrate both players' movement from this frame's inputs.
    fn move_player(&mut self, inputs: (PlayerInput, PlayerInput))
        requires
            old(self).wf(),
        ensures
            final(self).wf(),
            final(self)@ == spec_move_players(old(self)@, inputs),
    {
        let p0 = self.players[0];
        let p1 = self.players[1];
        self.players[0] = move_one(p0, inputs.0, Ghost(0));
        self.players[1] = move_one(p1, inputs.1, Ghost(1));
        proof {
            assert(self@.players =~= spec_move_players(old(self)@, inputs).players);
            assert(self@ =~= spec_move_players(old(self)@, inputs));
        }
    }

    /// Push both players out of the terrain they overlap. The pushes
    /// from all blocks are computed against the pre-push position and
    /// accumulated, so per-entity visitation order cannot affect the
    /// result.
    fn player_terrain_system(&mut self, world: &StaticWorld)
        requires
            old(self).wf(),
            world.wf(),
        ensures
            final(self).wf(),
            final(self)@ == spec_player_terrain(old(self)@, world.terrain@),
    {
        let p0 = self.players[0];
        let p1 = self.players[1];
        self.players[0] = terrain_one(p0, world, Ghost(0));
        self.players[1] = terrain_one(p1, world, Ghost(1));
        proof {
            assert(self@.players =~= spec_player_terrain(old(self)@, world.terrain@).players);
            assert(self@ =~= spec_player_terrain(old(self)@, world.terrain@));
        }
    }
}

/// Refresh one player's wall contacts by probing every terrain block
/// with the four sensors.
fn sense_one(p: PlayerState, world: &StaticWorld, slot: Ghost<int>) -> (r: PlayerState)
    requires
        p.wf(slot@),
        world.wf(),
    ensures
        r == spec_sense_one(p, world.terrain@),
        r.wf(slot@),
{
    let sensors = wall_sensors();
    let pos = (p.pos_x, p.pos_y);
    let n = world.terrain.len();
    let mut up = false;
    let mut down = false;
    let mut left = false;
    let mut right = false;
    let mut i: usize = 0;
    while i < n
        invariant
            p.wf(slot@),
            world.wf(),
            n == world.terrain@.len(),
            i <= n,
            sensors == spec_wall_sensors(),
            pos == (p.pos_x, p.pos_y),
            up <==> spec_hits_terrain(sensors.up, pos, world.terrain@.take(i as int)),
            down <==> spec_hits_terrain(sensors.down, pos, world.terrain@.take(i as int)),
            left <==> spec_hits_terrain(sensors.left, pos, world.terrain@.take(i as int)),
            right <==> spec_hits_terrain(sensors.right, pos, world.terrain@.take(i as int)),
        decreases n - i,
    {
        let t = world.terrain[i];
        let hit_up = hitbox_intersects((&sensors.up, pos), (&t.hitbox, (t.x, t.y)));
        let hit_down = hitbox_intersects((&sensors.down, pos), (&t.hitbox, (t.x, t.y)));
        let hit_left = hitbox_intersects((&sensors.left, pos), (&t.hitbox, (t.x, t.y)));
        let hit_right = hitbox_intersects((&sensors.right, pos), (&t.hitbox, (t.x, t.y)));
        proof {
            lemma_hits_take_step(sensors.up, pos, world.terrain@, i as int);
            lemma_hits_take_step(sensors.down, pos, world.terrain@, i as int);
            lemma_hits_take_step(sensors.left, pos, world.terrain@, i as int);
            lemma_hits_take_step(sensors.right, pos, world.terrain@, i as int);
        }
        up = up || hit_up;
        down = down || hit_down;
        left = left || hit_left;
        right = right || hit_right;
        i = i + 1;
    }
    proof {
        assert(world.terrain@.take(n as int) =~= world.terrain@);
    }
    PlayerState { walls: WallContactState { up, down, left, right }, ..p }
}

/// Extending the probed prefix by one block hits exactly when the
/// prefix hit or the new block intersects.
proof fn lemma_hits_take_step(sensor: Hitbox, pos: (i64, i64), terrain: Seq<TerrainBlock>, i: int)
    requires
        0 <= i < terrain.len(),
    ensures
        spec_hits_terrain(sensor, pos, terrain.take(i + 1)) <==> (spec_hits_terrain(
            sensor,
            pos,
            terrain.take(i),
        ) || spec_hitbox_intersects(sensor, pos, terrain[i].hitbox, (terrain[i].x, terrain[i].y))),
{
    let shorter = terrain.take(i);
    let longer = terrain.take(i + 1);
    if spec_hits_terrain(sensor, pos, longer) {
        let j = choose|j: int|
            0 <= j < longer.len() && spec_hitbox_intersects(
                sensor,
                pos,
                longer[j].hitbox,
                (longer[j].x, longer[j].y),
            );
        if j < i {
            assert(shorter[j] == longer[j]);
            assert(spec_hits_terrain(sensor, pos, shorter));
        } else {
            assert(longer[j] == terrain[i]);
        }
    }
    if spec_hits_terrain(sensor, pos, shorter) {
        let j = choose|j: int|
            0 <= j < shorter.len() && spec_hitbox_intersects(
                sensor,
                pos,
                shorter[j].hitbox,
                (shorter[j].x, shorter[j].y),
            );
        assert(longer[j] == shorter[j]);
        assert(spec_hits_terrain(sensor, pos, longer));
    }
    if spec_hitbox_intersects(sensor, pos, terrain[i].hitbox, (terrain[i].x, terrain[i].y)) {
        assert(longer[i] == terrain[i]);
        assert(spec_hits_terrain(sensor, pos, longer));
    }
}

/// Renormalizing a component no longer than the direction's length
/// stays within the movement speed.
proof fn lemma_vel_bound(c: int, len: int)
    requires
        0 <= c <= len,
        0 < len,
    ensures
        0 <= (c * MOVE_SPEED) / len <= MOVE_SPEED,
{
    vstd::arithmetic::div_mod::lemma_div_pos_is_pos(c * (MOVE_SPEED as int), len);
    assert(c * MOVE_SPEED <= len * MOVE_SPEED) by (nonlinear_arith)
        requires
            0 <= c <= len,
    ;
    vstd::arithmetic::div_mod::lemma_div_is_ordered(
        c * (MOVE_SPEED as int),
        len * (MOVE_SPEED as int),
        len,
    );
    assert((len * MOVE_SPEED) / len == MOVE_SPEED) by (nonlinear_arith)
        requires
            0 < len,
    ;
}

/// Integrate one player's movement from its input.
fn move_one(p: PlayerState, input: PlayerInput, slot: Ghost<int>) -> (r: PlayerState)
    requires
        p.wf(slot@),
    ensures
        r == spec_move_one(p, input),
        r.wf(slot@),
{
    let vel: (i64, i64) = if !input.moving() {
        (0, 0)
    } else {
        let dir = angle_to_vec(input.dir);
        let dx = snap_axis(dir.0 as i64);
        let dy = snap_axis(dir.1 as i64);
        let cx = if (p.walls.right && dx > 0) || (p.walls.left && dx < 0) {
            0
        } else {
            dx
        };
        let cy = if (p.walls.up && dy > 0) || (p.walls.down && dy < 0) {
            0
        } else {
            dy
        };
        proof {
            assert(cx * cx + cy * cy <= 0x4_0000 && cx * cx >= 0 && cy * cy >= 0)
                by (nonlinear_arith)
                requires
                    -256 <= cx <= 256,
                    -256 <= cy <= 256,
            ;
        }
        let n2 = cx * cx + cy * cy;
        if n2 == 0 {
            (0, 0)
        } else {
            let len = isqrt(n2 as u64);
            proof {
                assert(len >= 1) by {
                    if len == 0 {
                        assert(n2 < (0 + 1) * (0 + 1)) by (nonlinear_arith)
                            requires
                                n2 < (len + 1) * (len + 1),
                                len == 0,
                        ;
                    }
                }
                if cx >= 0 {
                    assert(cx * cx <= n2) by (nonlinear_arith)
                        requires
                            n2 == cx * cx + cy * cy,
                            cy * cy >= 0,
                    ;
                    lemma_isqrt_at_least(n2 as int, cx as int);
                    lemma_vel_bound(cx as int, len as int);
                } else {
                    assert((-cx) * (-cx) <= n2) by (nonlinear_arith)
                        requires
                            n2 == cx * cx + cy * cy,
                            cy * cy >= 0,
                    ;
                    lemma_isqrt_at_least(n2 as int, -cx as int);
                    lemma_vel_bound(-cx as int, len as int);
                }
                if cy >= 0 {
                    assert(cy * cy <= n2) by (nonlinear_arith)
                        requires
                            n2 == cx * cx + cy * cy,
                            cx * cx >= 0,
                    ;
                    lemma_isqrt_at_least(n2 as int, cy as int);
                    lemma_vel_bound(cy as int, len as int);
                } else {
                    assert((-cy) * (-cy) <= n2) by (nonlinear_arith)
                        requires
                            n2 == cx * cx + cy * cy,
                            cx * cx >= 0,
                    ;
                    lemma_isqrt_at_least(n2 as int, -cy as int);
                    lemma_vel_bound(-cy as int, len as int);
                }
            }
            let vx = muldiv(cx, MOVE_SPEED, len as i64);
            let vy = muldiv(cy, MOVE_SPEED, len as i64);
            (vx, vy)
        }
    };
    PlayerState {
        velocity: Velocity { x: vel.0, y: vel.1 },
        pos_x: clamp_coord(p.pos_x + vel.0, POS_LIMIT),
        pos_y: clamp_coord(p.pos_y + vel.1, POS_LIMIT),
        ..p
    }
}

/// Snap a direction component within the snap band to the axis.
fn snap_axis(v: i64) -> (r: i64)
    requires
        -0x1000 <= v <= 0x1000,
    ensures
        r == spec_snap(v as int),
        -0x1000 <= r <= 0x1000,
{
    if -SNAP_EPS <= v && v <= SNAP_EPS {
        0
    } else {
        v
    }
}

/// Push one player out of every terrain block it overlaps, from its
/// single pre-push position.
fn terrain_one(p: PlayerState, world: &StaticWorld, slot: Ghost<int>) -> (r: PlayerState)
    requires
        p.wf(slot@),
        world.wf(),
    ensures
        r == spec_terrain_one(p, world.terrain@),
        r.wf(slot@),
{
    let hull = player_hitbox();
    let pos = (p.pos_x, p.pos_y);
    let n = world.terrain.len();
    let mut sum_x: i64 = 0;
    let mut sum_y: i64 = 0;
    let mut i: usize = 0;
    while i < n
        invariant
            p.wf(slot@),
            world.wf(),
            n == world.terrain@.len(),
            i <= n,
            hull == spec_player_hitbox(),
            pos == (p.pos_x, p.pos_y),
            (sum_x as int, sum_y as int) == spec_push_sum(hull, pos, world.terrain@.take(i as int)),
            -0x40_0000 * (i as int) <= sum_x <= 0x40_0000 * (i as int),
            -0x40_0000 * (i as int) <= sum_y <= 0x40_0000 * (i as int),
        decreases n - i,
    {
        let t = world.terrain[i];
        let push = hitbox_collision((&hull, pos), (&t.hitbox, (t.x, t.y)));
        proof {
            assert(world.terrain@.take(i + 1 as int).drop_last() =~= world.terrain@.take(i as int));
            assert(world.terrain@.take(i + 1 as int).last() == world.terrain@[i as int]);
        }
        sum_x = sum_x + push.0;
        sum_y = sum_y + push.1;
        i = i + 1;
    }
    proof {
        assert(world.terrain@.take(n as int) =~= world.terrain@);
    }
    PlayerState {
        pos_x: clamp_coord(p.pos_x + sum_x, POS_LIMIT),
        pos_y: clamp_coord(p.pos_y + sum_y, POS_LIMIT),
        ..p
    }
}

/// A scaled component no longer than its denominator stays within the
/// scale.
proof fn lemma_scale_le(c: int, num: int, den: int)
    requires
        0 <= c <= den,
        0 < den,
        0 < num,
    ensures
        0 <= (c * num) / den <= num,
{
    vstd::arithmetic::div_mod::lemma_div_pos_is_pos(c * num, den);
    assert(c * num <= den * num) by (nonlinear_arith)
        requires
            0 <= c <= den,
            0 < num,
    ;
    vstd::arithmetic::div_mod::lemma_div_is_ordered(c * num, den * num, den);
    assert((den * num) / den == num) by (nonlinear_arith)
        requires
            0 < den,
    ;
}

/// A player slot respawned for a new round: moved to a spawn point and
/// reset to the round-start components. Score, slot id and the damage
/// marker survive the respawn.
pub open spec fn spec_respawned(p: PlayerState, pos: (i64, i64)) -> PlayerState {
    PlayerState {
        pos_x: pos.0,
        pos_y: pos.1,
        velocity: Velocity { x: 0, y: 0 },
        can_shoot: CanShoot { value: true, since_last: RESPAWN_SINCE_LAST },
        walls: WallContactState { up: false, down: false, left: false, right: false },
        health: Health(RESPAWN_HEALTH),
        input_angle: InputAngle(0),
        ..p
    }
}

/// The round start that frame zero triggers: every player is reset and
/// moved to a spawn point drawn without replacement from the spawn
/// list, in slot order, and all bullets despawn. On any other frame the
/// state passes through untouched.
pub open spec fn spec_first_frame_init(s: SimSnapshot, spawns: Seq<(i64, i64)>) -> SimSnapshot {
    if s.frame != 0 {
        s
    } else {
        let rng1 = s.rng.spec_advanced();
        let i0 = lcg_scaled(rng1.state(), spawns.len() as u64) as int;
        let pos0 = spawns[i0];
        let spawns1 = spawns.update(i0, spawns.last()).drop_last();
        let rng2 = rng1.spec_advanced();
        let i1 = lcg_scaled(rng2.state(), spawns1.len() as u64) as int;
        let pos1 = spawns1[i1];
        SimSnapshot {
            players: seq![spec_respawned(s.players[0], pos0), spec_respawned(s.players[1], pos1)],
            bullets: Seq::empty(),
            rng: rng2,
            frame: s.frame,
        }
    }
}

/// One player's attack intent resolved: a held fire control with a
/// ready, cooled-down bow looses a bullet along the aim angle, spawned
/// just outside the shooter, and starts the cooldown.
pub open spec fn spec_shoot_one(p: PlayerState, input: PlayerInput) -> (
    PlayerState,
    Option<BulletState>,
) {
    if input.spec_fire() && p.can_shoot.value && p.can_shoot.since_last >= SHOOT_COOLDOWN {
        let sin = spec_sin_byte(input.angle as int);
        let cos = spec_sin_byte(((input.angle + 64) % 256) as int);
        let b = BulletState {
            bullet: Bullet { shot_by: p.player.id },
            pos_x: (p.pos_x + sin * BULLET_SPAWN_OFFSET) as i64,
            pos_y: (p.pos_y + cos * BULLET_SPAWN_OFFSET) as i64,
            vel_x: spec_muldiv(sin, BULLET_SPEED as int, crate::angle::UNIT_SCALE as int) as i64,
            vel_y: spec_muldiv(cos, BULLET_SPEED as int, crate::angle::UNIT_SCALE as int) as i64,
            lifetime: Lifetime(BULLET_LIFETIME),
        };
        (PlayerState { can_shoot: CanShoot { value: false, since_last: 0 }, ..p }, Some(b))
    } else {
        (p, None)
    }
}

/// Both players' attack intents resolved, new bullets appended in slot
/// order.
pub open spec fn spec_shoot(s: SimSnapshot, inputs: (PlayerInput, PlayerInput)) -> SimSnapshot {
    let r0 = spec_shoot_one(s.players[0], inputs.0);
    let r1 = spec_shoot_one(s.players[1], inputs.1);
    let bullets1 = match r0.1 {
        Some(b) => s.bullets.push(b),
        None => s.bullets,
    };
    let bullets2 = match r1.1 {
        Some(b) => bullets1.push(b),
        None => bullets1,
    };
    SimSnapshot { players: seq![r0.0, r1.0], bullets: bullets2, ..s }
}

/// Whether a bullet's hitbox overlaps a player's hull.
pub open spec fn spec_player_hit(p: PlayerState, b: BulletState) -> bool {
    spec_hitbox_intersects(
        spec_player_hitbox(),
        (p.pos_x, p.pos_y),
        spec_bullet_hitbox(),
        (b.pos_x, b.pos_y),
    )
}

/// One player after every bullet strike this frame: a point of health
/// per overlapping bullet, and the damage marker names the owner of the
/// last overlapping bullet in bullet order.
pub open spec fn spec_damage_one(p: PlayerState, bullets: Seq<BulletState>) -> PlayerState
    decreases bullets.len(),
{
    if bullets.len() == 0 {
        p
    } else {
        let prev = spec_damage_one(p, bullets.drop_last());
        let b = bullets.last();
        if spec_player_hit(p, b) {
            PlayerState {
                health: Health(
                    if prev.health.0 == i32::MIN {
                        i32::MIN
                    } else {
                        (prev.health.0 - 1) as i32
                    },
                ),
                damaged: true,
                last_damaged_by: LastDamagedBy { id: b.bullet.shot_by },
                ..prev
            }
        } else {
            prev
        }
    }
}

/// The bullets that survive the frame: the ones that struck no player.
pub open spec fn spec_keep_bullets(
    bullets: Seq<BulletState>,
    p0: PlayerState,
    p1: PlayerState,
) -> Seq<BulletState>
    decreases bullets.len(),
{
    if bullets.len() == 0 {
        bullets
    } else {
        let rest = spec_keep_bullets(bullets.drop_last(), p0, p1);
        let b = bullets.last();
        if spec_player_hit(p0, b) || spec_player_hit(p1, b) {
            rest
        } else {
            rest.push(b)
        }
    }
}

/// Damage resolved: players lose health for every overlapping bullet,
/// and the bullets that struck despawn.
pub open spec fn spec_bullet_player(s: SimSnapshot) -> SimSnapshot {
    SimSnapshot {
        players: seq![
            spec_damage_one(s.players[0], s.bullets),
            spec_damage_one(s.players[1], s.bullets),
        ],
        bullets: spec_keep_bullets(s.bullets, s.players[0], s.players[1]),
        ..s
    }
}

/// A player credited with a hit.
pub open spec fn spec_add_points(p: PlayerState) -> PlayerState {
    PlayerState {
        points: Points(
            if p.points.0 > u32::MAX - 100 {
                u32::MAX
            } else {
                (p.points.0 + 100) as u32
            },
        ),
        ..p
    }
}

/// A victim's damage marker consumed.
pub open spec fn spec_clear_damage(p: PlayerState) -> PlayerState {
    PlayerState { damaged: false, ..p }
}

/// Score resolved: each damaged player's marker is consumed and the
/// attacker it names is credited, victims in slot order.
pub open spec fn spec_award_points(s: SimSnapshot) -> SimSnapshot {
    let p0 = s.players[0];
    let p1 = s.players[1];
    let q = if p0.damaged {
        if p0.last_damaged_by.id == 0 {
            (spec_clear_damage(spec_add_points(p0)), p1)
        } else {
            (spec_clear_damage(p0), spec_add_points(p1))
        }
    } else {
        (p0, p1)
    };
    let r = if q.1.damaged {
        if q.1.last_damaged_by.id == 1 {
            (q.0, spec_clear_damage(spec_add_points(q.1)))
        } else {
            (spec_add_points(q.0), spec_clear_damage(q.1))
        }
    } else {
        q
    };
    SimSnapshot { players: seq![r.0, r.1], ..s }
}

impl GameSim {
    /// On frame zero, respawn the round: reset both players, move each
    /// to a spawn point drawn without replacement, despawn all bullets.
    fn first_frame_init(&mut self, world: &StaticWorld)
        requires
            old(self).wf(),
            world.wf(),
        ensures
            final(self).wf(),
            final(self)@ == spec_first_frame_init(old(self)@, world.spawnpoints@),
    {
        if self.frame != 0 {
            return ;
        }
        let mut spawns: Vec<(i64, i64)> = Vec::new();
        let total = world.spawnpoints.len();
        let mut k: usize = 0;
        while k < total
            invariant
                k <= total,
                total == world.spawnpoints@.len(),
                spawns@ == world.spawnpoints@.take(k as int),
            decreases total - k,
        {
            spawns.push(world.spawnpoints[k]);
            proof {
                assert(spawns@ =~= world.spawnpoints@.take(k + 1 as int));
            }
            k = k + 1;
        }
        proof {
            assert(spawns@ =~= world.spawnpoints@);
        }
        let pos0 = self.rng.extract_random(&mut spawns);
        proof {
            assert forall|j: int| 0 <= j < spawns@.len() implies -POS_LIMIT <= (
            #[trigger] spawns@[j]).0 <= POS_LIMIT && -POS_LIMIT <= spawns@[j].1 <= POS_LIMIT by {
                assert(spawns@[j] == world.spawnpoints@.update(
                    lcg_scaled(self.rng.state(), world.spawnpoints@.len() as u64) as int,
                    world.spawnpoints@.last(),
                ).drop_last()[j]);
            }
        }
        let pos1 = self.rng.extract_random(&mut spawns);
        let p0 = self.players[0];
        let p1 = self.players[1];
        self.players[0] = respawned(p0, pos0);
        self.players[1] = respawned(p1, pos1);
        self.bullets = Vec::new();
        proof {
            assert(self@.players =~= spec_first_frame_init(old(self)@, world.spawnpoints@).players);
            assert(self@ =~= spec_first_frame_init(old(self)@, world.spawnpoints@));
        }
    }

    /// Resolve both players' attack intents.
    fn shoot(&mut self, inputs: (PlayerInput, PlayerInput))
        requires
            old(self).wf(),
        ensures
            final(self).wf(),
            final(self)@ == spec_shoot(old(self)@, inputs),
    {
        let p0 = self.players[0];
        let p1 = self.players[1];
        let r0 = shoot_one(p0, inputs.0, Ghost(0));
        self.players[0] = r0.0;
        if let Some(b) = r0.1 {
            self.bullets.push(b);
        }
        let r1 = shoot_one(p1, inputs.1, Ghost(1));
        self.players[1] = r1.0;
        if let Some(b) = r1.1 {
            self.bullets.push(b);
        }
        proof {
            assert(self@.players =~= spec_shoot(old(self)@, inputs).players);
            assert(self@.bullets =~= spec_shoot(old(self)@, inputs).bullets);
            assert(self@ =~= spec_shoot(old(self)@, inputs));
        }
    }

    /// Resolve bullet strikes: damage struck players, despawn the
    /// bullets that struck.
    fn bullet_player_system(&mut self)
        requires
            old(self).wf(),
        ensures
            final(self).wf(),
            final(self)@ == spec_bullet_player(old(self)@),
    {
        let p0 = self.players[0];
        let p1 = self.players[1];
        proof {
            assert forall|j: int|
                0 <= j < self.bullets@.len() implies (#[trigger] self.bullets@[j]).wf() by {
                assert(self.bullets@[j] == old(self)@.bullets[j]);
                assert(old(self)@.bullets[j].wf());
            }
        }
        let d0 = damage_one(p0, &self.bullets, Ghost(0));
        let d1 = damage_one(p1, &self.bullets, Ghost(1));
        let n = self.bullets.len();
        let mut kept: Vec<BulletState> = Vec::new();
        let mut i: usize = 0;
        while i < n
            invariant
                old(self).wf(),
                p0 == old(self)@.players[0],
                p1 == old(self)@.players[1],
                self@ == old(self)@,
                n == self.bullets@.len(),
                i <= n,
                kept@ == spec_keep_bullets(old(self)@.bullets.take(i as int), p0, p1),
                forall|j: int| 0 <= j < kept@.len() ==> (#[trigger] kept@[j]).wf(),
            decreases n - i,
        {
            let b = self.bullets[i];
            proof {
                assert(old(self)@.bullets.take(i + 1 as int).drop_last() =~= old(
                    self,
                )@.bullets.take(i as int));
                assert(old(self)@.bullets.take(i + 1 as int).last() == old(self)@.bullets[i as int]);
            }
            let hit0 = hitbox_intersects(
                (&player_hitbox(), (p0.pos_x, p0.pos_y)),
                (&bullet_hitbox(), (b.pos_x, b.pos_y)),
            );
            let hit1 = hitbox_intersects(
                (&player_hitbox(), (p1.pos_x, p1.pos_y)),
                (&bullet_hitbox(), (b.pos_x, b.pos_y)),
            );
            if !hit0 && !hit1 {
                kept.push(b);
            }
            i = i + 1;
        }
        proof {
            assert(old(self)@.bullets.take(n as int) =~= old(self)@.bullets);
        }
        self.players[0] = d0;
        self.players[1] = d1;
        self.bullets = kept;
        proof {
            assert(self@.players =~= spec_bullet_player(old(self)@).players);
            assert(self@ =~= spec_bullet_player(old(self)@));
        }
    }

    /// Consume damage markers and credit the attackers they name.
    fn award_points(&mut self)
        requires
            old(self).wf(),
        ensures
            final(self).wf(),
            final(self)@ == spec_award_points(old(self)@),
    {
        let p0 = self.players[0];
        let p1 = self.players[1];
        let mut q0 = p0;
        let mut q1 = p1;
        if q0.damaged {
            if q0.last_damaged_by.id == 0 {
                q0 = add_points(q0);
                q0.damaged = false;
            } else {
                q0.damaged = false;
                q1 = add_points(q1);
            }
        }
        if q1.damaged {
            if q1.last_damaged_by.id == 1 {
                q1 = add_points(q1);
                q1.damaged = false;
            } else {
                q0 = add_points(q0);
                q1.damaged = false;
            }
        }
        self.players[0] = q0;
        self.players[1] = q1;
        proof {
            assert(self@.players =~= spec_award_points(old(self)@).players);
            assert(self@ =~= spec_award_points(old(self)@));
        }
    }
}

/// Reset one player for the round and place it on a spawn point.
fn respawned(p: PlayerState, pos: (i64, i64)) -> (r: PlayerState)
    requires
        -POS_LIMIT <= pos.0 <= POS_LIMIT,
        -POS_LIMIT <= pos.1 <= POS_LIMIT,
    ensures
        r == spec_respawned(p, pos),
{
    PlayerState {
        pos_x: pos.0,
        pos_y: pos.1,
        velocity: Velocity { x: 0, y: 0 },
        can_shoot: CanShoot { value: true, since_last: RESPAWN_SINCE_LAST },
        walls: WallContactState { up: false, down: false, left: false, right: false },
        health: Health(RESPAWN_HEALTH),
        input_angle: InputAngle(0),
        ..p
    }
}

/// Resolve one player's attack intent.
fn shoot_one(p: PlayerState, input: PlayerInput, slot: Ghost<int>) -> (r: (
    PlayerState,
    Option<BulletState>,
))
    requires
        0 <= slot@ < NUM_PLAYERS,
        p.wf(slot@),
    ensures
        r == spec_shoot_one(p, input),
        r.0.wf(slot@),
        (match r.1 {
            Some(b) => b.wf(),
            None => true,
        }),
{
    if input.fire() && p.can_shoot.value && p.can_shoot.since_last >= SHOOT_COOLDOWN {
        let dir = angle_to_vec(input.angle);
        let sin = dir.0 as i64;
        let cos = dir.1 as i64;
        proof {
            if sin >= 0 {
                lemma_scale_le(sin as int, BULLET_SPEED as int, crate::angle::UNIT_SCALE as int);
            } else {
                lemma_scale_le(-sin as int, BULLET_SPEED as int, crate::angle::UNIT_SCALE as int);
            }
            if cos >= 0 {
                lemma_scale_le(cos as int, BULLET_SPEED as int, crate::angle::UNIT_SCALE as int);
            } else {
                lemma_scale_le(-cos as int, BULLET_SPEED as int, crate::angle::UNIT_SCALE as int);
            }
        }
        let b = BulletState {
            bullet: Bullet { shot_by: p.player.id },
            pos_x: p.pos_x + sin * BULLET_SPAWN_OFFSET,
            pos_y: p.pos_y + cos * BULLET_SPAWN_OFFSET,
            vel_x: muldiv(sin, BULLET_SPEED, 256),
            vel_y: muldiv(cos, BULLET_SPEED, 256),
            lifetime: Lifetime(BULLET_LIFETIME),
        };
        (PlayerState { can_shoot: CanShoot { value: false, since_last: 0 }, ..p }, Some(b))
    } else {
        (p, None)
    }
}

/// Apply every bullet strike of this frame to one player.
fn damage_one(p: PlayerState, bullets: &Vec<BulletState>, slot: Ghost<int>) -> (r: PlayerState)
    requires
        p.wf(slot@),
        forall|j: int| 0 <= j < bullets@.len() ==> (#[trigger] bullets@[j]).wf(),
    ensures
        r == spec_damage_one(p, bullets@),
        r.wf(slot@),
{
    let hull = player_hitbox();
    let shape = bullet_hitbox();
    let n = bullets.len();
    let mut acc = p;
    let mut i: usize = 0;
    while i < n
        invariant
            p.wf(slot@),
            forall|j: int| 0 <= j < bullets@.len() ==> (#[trigger] bullets@[j]).wf(),
            n == bullets@.len(),
            i <= n,
            hull == spec_player_hitbox(),
            shape == spec_bullet_hitbox(),
            acc == spec_damage_one(p, bullets@.take(i as int)),
            acc.pos_x == p.pos_x && acc.pos_y == p.pos_y,
            acc.player == p.player,
            acc.velocity == p.velocity,
        decreases n - i,
    {
        let b = bullets[i];
        proof {
            assert(bullets@.take(i + 1 as int).drop_last() =~= bullets@.take(i as int));
            assert(bullets@.take(i + 1 as int).last() == bullets@[i as int]);
        }
        let hit = hitbox_intersects(
            (&hull, (p.pos_x, p.pos_y)),
            (&shape, (b.pos_x, b.pos_y)),
        );
        if hit {
            let health = if acc.health.0 == i32::MIN {
                i32::MIN
            } else {
                acc.health.0 - 1
            };
            acc = PlayerState {
                health: Health(health),
                damaged: true,
                last_damaged_by: LastDamagedBy { id: b.bullet.shot_by },
                ..acc
            };
        }
        i = i + 1;
    }
    proof {
        assert(bullets@.take(n as int) =~= bullets@);
    }
    acc
}

/// Credit one player with a hit.
fn add_points(p: PlayerState) -> (r: PlayerState)
    ensures
        r == spec_add_points(p),
{
    let points = if p.points.0 > u32::MAX - 100 {
        u32::MAX
    } else {
        p.points.0 + 100
    };
    PlayerState { points: Points(points), ..p }
}

/// One full simulation step: the fixed pipeline over the tracked state.
///
/// The ordering — respawn check, round init, sense environment,
/// integrate movement, resolve movement-blocking collisions, resolve
/// attack intents, resolve damage, resolve score, advance timers, move
/// bullets, cull expired entities, advance the frame counter — is part
/// of the determinism contract; reordering is a protocol break.
#[verifier::opaque]
pub open spec fn spec_step(
    s: SimSnapshot,
    inputs: (PlayerInput, PlayerInput),
    terrain: Seq<TerrainBlock>,
    spawns: Seq<(i64, i64)>,
) -> SimSnapshot {
    let s1 = spec_restart_on_death(s);
    let s2 = spec_first_frame_init(s1, spawns);
    let s3 = spec_sense_walls(s2, terrain);
    let s4 = spec_move_players(s3, inputs);
    let s5 = spec_player_terrain(s4, terrain);
    let s6 = spec_shoot(s5, inputs);
    let s7 = spec_bullet_player(s6);
    let s8 = spec_award_points(s7);
    let s9 = spec_reload(s8, inputs);
    let s10 = spec_move_bullets(s9);
    let s11 = spec_despawn_after_lifetime(s10);
    spec_increment_frame(s11)
}

/// The tracked state after a whole sequence of frames, stepped in
/// order.
pub open spec fn spec_run(
    s: SimSnapshot,
    inputs: Seq<(PlayerInput, PlayerInput)>,
    terrain: Seq<TerrainBlock>,
    spawns: Seq<(i64, i64)>,
) -> SimSnapshot
    decreases inputs.len(),
{
    if inputs.len() == 0 {
        s
    } else {
        spec_run(spec_step(s, inputs[0], terrain, spawns), inputs.drop_first(), terrain, spawns)
    }
}

/// The determinism contract of the simulation: stepping a state over an
/// input sequence is a mathematical function of the tracked state, the
/// ordered inputs and the static world alone. Two peers that start from
/// the same snapshot and feed the same ordered per-slot records reach
/// bit-identical rollback-tracked state, however often each of them
/// speculated and re-simulated along the way, because `step` promises
/// exactly this function of its inputs and nothing else.
pub proof fn lemma_replay_deterministic(
    s1: SimSnapshot,
    s2: SimSnapshot,
    inputs1: Seq<(PlayerInput, PlayerInput)>,
    inputs2: Seq<(PlayerInput, PlayerInput)>,
    terrain: Seq<TerrainBlock>,
    spawns: Seq<(i64, i64)>,
)
    requires
        s1 == s2,
        inputs1 == inputs2,
    ensures
        spec_run(s1, inputs1, terrain, spawns) == spec_run(s2, inputs2, terrain, spawns),
{
}

impl GameSim {
    /// Advance one confirmed or speculative frame from the full per-slot
    /// input set.
    ///
    /// A pure function of the tracked state, the inputs and the static
    /// world: no clock, no entropy, nothing outside the registry. It may
    /// be re-invoked for the same frame with corrected inputs; one-shot
    /// presentation effects are the collaborators' burden, gated to the
    /// confirmed run.
    pub fn step(&mut self, inputs: (PlayerInput, PlayerInput), world: &StaticWorld)
        requires
            old(self).wf(),
            world.wf(),
        ensures
            final(self).wf(),
            final(self)@ == spec_step(old(self)@, inputs, world.terrain@, world.spawnpoints@),
    {
        proof {
            reveal(spec_step);
        }
        self.restart_on_death();
        self.first_frame_init(world);
        self.sense_walls(world);
        self.move_player(inputs);
        self.player_terrain_system(world);
        self.shoot(inputs);
        self.bullet_player_system();
        self.award_points();
        self.reload(inputs);
        self.move_bullets();
        self.despawn_after_lifetime();
        self.increment_frame_count();
    }

    /// Advance one frame per entry of an ordered input list: a whole
    /// replay, as the rollback engine performs it when it re-simulates a
    /// span of frames.
    pub fn run_frames(&mut self, inputs: &Vec<(PlayerInput, PlayerInput)>, world: &StaticWorld)
        requires
            old(self).wf(),
            world.wf(),
        ensures
            final(self).wf(),
            final(self)@ == spec_run(old(self)@, inputs@, world.terrain@, world.spawnpoints@),
    {
        proof {
            assert(inputs@.skip(0) =~= inputs@);
        }
        let n = inputs.len();
        let mut i: usize = 0;
        while i < n
            invariant
                self.wf(),
                world.wf(),
                n == inputs@.len(),
                i <= n,
                spec_run(self@, inputs@.skip(i as int), world.terrain@, world.spawnpoints@)
                    == spec_run(old(self)@, inputs@, world.terrain@, world.spawnpoints@),
            decreases n - i,
        {
            proof {
                assert(inputs@.skip(i as int)[0] == inputs@[i as int]);
                assert(inputs@.skip(i as int).drop_first() =~= inputs@.skip(i + 1 as int));
            }
            self.step(inputs[i], world);
            i = i + 1;
        }
        proof {
            assert(inputs@.skip(n as int) =~= Seq::<(PlayerInput, PlayerInput)>::empty());
        }
    }

    /// Whether two tracked states are bit-identical: the comparison a
    /// desync check performs on peers' snapshots.
    pub fn same_state(&self, other: &GameSim) -> (r: bool)
        ensures
            r <==> self@ =~= other@,
    {
        if self.frame != other.frame {
            return false;
        }
        if !(self.rng == other.rng) {
            return false;
        }
        if self.players.len() != other.players.len() {
            return false;
        }
        if self.bullets.len() != other.bullets.len() {
            return false;
        }
        let mut i: usize = 0;
        while i < self.players.len()
            invariant
                i <= self.players@.len(),
                self.players@.len() == other.players@.len(),
                forall|j: int| 0 <= j < i ==> self.players@[j] == other.players@[j],
            decreases self.players@.len() - i,
        {
            if !(self.players[i] == other.players[i]) {
                return false;
            }
            i = i + 1;
        }
        let mut k: usize = 0;
        while k < self.bullets.len()
            invariant
                k <= self.bullets@.len(),
                self.bullets@.len() == other.bullets@.len(),
                forall|j: int| 0 <= j < k ==> self.bullets@[j] == other.bullets@[j],
            decreases self.bullets@.len() - k,
        {
            if !(self.bullets[k] == other.bullets[k]) {
                return false;
            }
            k = k + 1;
        }
        proof {
            assert(self.players@ =~= other.players@);
            assert(self.bullets@ =~= other.bullets@);
        }
        true
    }
}

/// The offset basis of the 64-bit FNV-1a hash.
pub const FNV_OFFSET: u64 = 0xcbf2_9ce4_8422_2325;

/// The prime of the 64-bit FNV-1a hash.
pub const FNV_PRIME: u64 = 0x100_0000_01b3;

/// One FNV-1a step: fold a word into the running hash.
pub open spec fn spec_fnv_step(h: u64, w: u64) -> u64 {
    (((h ^ w) * FNV_PRIME) % 0x1_0000_0000_0000_0000) as u64
}

/// One player's fields folded into the hash, in declaration order.
pub open spec fn spec_hash_player(h: u64, p: PlayerState) -> u64 {
    let h = spec_fnv_step(h, p.player.id as u64);
    let h = spec_fnv_step(h, p.pos_x as u64);
    let h = spec_fnv_step(h, p.pos_y as u64);
    let h = spec_fnv_step(h, p.velocity.x as u64);
    let h = spec_fnv_step(h, p.velocity.y as u64);
    let h = spec_fnv_step(h, if p.can_shoot.value { 1 } else { 0 });
    let h = spec_fnv_step(h, p.can_shoot.since_last as u64);
    let h = spec_fnv_step(h, if p.walls.up { 1 } else { 0 });
    let h = spec_fnv_step(h, if p.walls.down { 1 } else { 0 });
    let h = spec_fnv_step(h, if p.walls.left { 1 } else { 0 });
    let h = spec_fnv_step(h, if p.walls.right { 1 } else { 0 });
    let h = spec_fnv_step(h, p.health.0 as u64);
    let h = spec_fnv_step(h, p.points.0 as u64);
    let h = spec_fnv_step(h, p.input_angle.0 as u64);
    let h = spec_fnv_step(h, if p.damaged { 1 } else { 0 });
    spec_fnv_step(h, p.last_damaged_by.id as u64)
}

/// Every player folded in, in slot order.
pub open spec fn spec_hash_players(h: u64, players: Seq<PlayerState>) -> u64
    decreases players.len(),
{
    if players.len() == 0 {
        h
    } else {
        spec_hash_player(spec_hash_players(h, players.drop_last()), players.last())
    }
}

/// One bullet's fields folded into the hash, in declaration order.
pub open spec fn spec_hash_bullet(h: u64, b: BulletState) -> u64 {
    let h = spec_fnv_step(h, b.bullet.shot_by as u64);
    let h = spec_fnv_step(h, b.pos_x as u64);
    let h = spec_fnv_step(h, b.pos_y as u64);
    let h = spec_fnv_step(h, b.vel_x as u64);
    let h = spec_fnv_step(h, b.vel_y as u64);
    spec_fnv_step(h, b.lifetime.0 as u64)
}

/// Every bullet folded in, in order.
pub open spec fn spec_hash_bullets(h: u64, bullets: Seq<BulletState>) -> u64
    decreases bullets.len(),
{
    if bullets.len() == 0 {
        h
    } else {
        spec_hash_bullet(spec_hash_bullets(h, bullets.drop_last()), bullets.last())
    }
}

/// The checksum of the tracked state: an FNV-1a fold over the frame
/// counter, the generator state, every player and every bullet. Equal
/// states hash equally on every peer, so periodically exchanging this
/// value detects divergence.
pub open spec fn spec_checksum(s: SimSnapshot) -> u64 {
    let h = spec_fnv_step(FNV_OFFSET, s.frame);
    let h = spec_fnv_step(h, s.rng.state());
    let h = spec_hash_players(h, s.players);
    spec_hash_bullets(h, s.bullets)
}

/// One FNV-1a step.
fn fnv_step(h: u64, w: u64) -> (r: u64)
    ensures
        r == spec_fnv_step(h, w),
{
    let x: u64 = h ^ w;
    proof {
        assert(x * FNV_PRIME <= u64::MAX * FNV_PRIME <= u128::MAX) by (nonlinear_arith)
            requires
                x <= u64::MAX,
        ;
    }
    let wide: u128 = (x as u128) * (FNV_PRIME as u128);
    (wide % 0x1_0000_0000_0000_0000u128) as u64
}

impl GameSim {
    /// The checksum of the tracked state, as the desync check exchanges
    /// it between peers.
    pub fn checksum(&self) -> (r: u64)
        ensures
            r == spec_checksum(self@),
    {
        let mut h = fnv_step(FNV_OFFSET, self.frame);
        h = fnv_step(h, self.rng.state_word());
        let n = self.players.len();
        let mut i: usize = 0;
        while i < n
            invariant
                n == self.players@.len(),
                i <= n,
                h == spec_hash_players(
                    spec_fnv_step(spec_fnv_step(FNV_OFFSET, self@.frame), self@.rng.state()),
                    self.players@.take(i as int),
                ),
            decreases n - i,
        {
            let p = self.players[i];
            proof {
                assert(self.players@.take(i + 1 as int).drop_last() =~= self.players@.take(
                    i as int,
                ));
                assert(self.players@.take(i + 1 as int).last() == self.players@[i as int]);
            }
            h = fnv_step(h, p.player.id as u64);
            h = fnv_step(h, p.pos_x as u64);
            h = fnv_step(h, p.pos_y as u64);
            h = fnv_step(h, p.velocity.x as u64);
            h = fnv_step(h, p.velocity.y as u64);
            h = fnv_step(h, if p.can_shoot.value { 1 } else { 0 });
            h = fnv_step(h, p.can_shoot.since_last as u64);
            h = fnv_step(h, if p.walls.up { 1 } else { 0 });
            h = fnv_step(h, if p.walls.down { 1 } else { 0 });
            h = fnv_step(h, if p.walls.left { 1 } else { 0 });
            h = fnv_step(h, if p.walls.right { 1 } else { 0 });
            h = fnv_step(h, p.health.0 as u64);
            h = fnv_step(h, p.points.0 as u64);
            h = fnv_step(h, p.input_angle.0 as u64);
            h = fnv_step(h, if p.damaged { 1 } else { 0 });
            h = fnv_step(h, p.last_damaged_by.id as u64);
            i = i + 1;
        }
        proof {
            assert(self.players@.take(n as int) =~= self.players@);
        }
        let m = self.bullets.len();
        let mut k: usize = 0;
        while k < m
            invariant
                m == self.bullets@.len(),
                n == self.players@.len(),
                k <= m,
                h == spec_hash_bullets(
                    spec_hash_players(
                        spec_fnv_step(spec_fnv_step(FNV_OFFSET, self@.frame), self@.rng.state()),
                        self.players@,
                    ),
                    self.bullets@.take(k as int),
                ),
            decreases m - k,
        {
            let b = self.bullets[k];
            proof {
                assert(self.bullets@.take(k + 1 as int).drop_last() =~= self.bullets@.take(
                    k as int,
                ));
                assert(self.bullets@.take(k + 1 as int).last() == self.bullets@[k as int]);
            }
            h = fnv_step(h, b.bullet.shot_by as u64);
            h = fnv_step(h, b.pos_x as u64);
            h = fnv_step(h, b.pos_y as u64);
            h = fnv_step(h, b.vel_x as u64);
            h = fnv_step(h, b.vel_y as u64);
            h = fnv_step(h, b.lifetime.0 as u64);
            k = k + 1;
        }
        proof {
            assert(self.bullets@.take(m as int) =~= self.bullets@);
        }
        h
    }
}

/// Apply one reload tick to one player slot.
fn reload_one(p: PlayerState, input: PlayerInput) -> (r: PlayerState)
    ensures
        r == spec_reload_one(p, input),
{
    let since = if p.can_shoot.since_last == usize::MAX {
        usize::MAX
    } else {
        p.can_shoot.since_last + 1
    };
    let value = if !input.fire() && !p.can_shoot.value {
        true
    } else {
        p.can_shoot.value
    };
    PlayerState { can_shoot: CanShoot { value, since_last: since }, ..p }
}

} // verus!
