use p2pg::component::{Bullet, CanShoot, Health, InputAngle, LastDamagedBy, Lifetime, Player, Points, Velocity, WallContactState};
use p2pg::collision::Hitbox;
use p2pg::input::{PlayerInput, FIRE, MOVE};
use p2pg::rand::Rng;
use p2pg::sim::{BulletState, GameSim, PlayerState, StaticWorld, TerrainBlock, BULLET_LIFETIME};

fn empty_world() -> StaticWorld {
    StaticWorld {
        terrain: vec![],
        spawnpoints: vec![(-4096, 0), (4096, 0), (2000, 2000), (-2000, -2000)],
    }
}

fn idle() -> PlayerInput {
    PlayerInput { dir: 0, btn: 0, angle: 0 }
}

fn moving(dir: u8) -> PlayerInput {
    PlayerInput { dir, btn: MOVE, angle: dir }
}

fn firing(angle: u8) -> PlayerInput {
    PlayerInput { dir: 0, btn: FIRE, angle }
}

fn scripted_inputs(frames: usize) -> Vec<(PlayerInput, PlayerInput)> {
    let mut inputs = Vec::new();
    for f in 0..frames {
        let a = match f % 4 {
            0 => idle(),
            1 => moving((f % 256) as u8),
            2 => firing((f * 3 % 256) as u8),
            _ => PlayerInput { dir: (f % 256) as u8, btn: MOVE | FIRE, angle: 7 },
        };
        let b = match f % 3 {
            0 => moving(200),
            1 => firing(128),
            _ => idle(),
        };
        inputs.push((a, b));
    }
    inputs
}

/// Identical input lists and identical seeds drive two independent runs
/// to bit-identical rollback-tracked state.
#[test]
fn two_runs_are_bit_identical() {
    let world = empty_world();
    let inputs = scripted_inputs(240);
    let mut a = GameSim::new(1028);
    let mut b = GameSim::new(1028);
    a.run_frames(&inputs, &world);
    b.run_frames(&inputs, &world);
    assert!(a.same_state(&b));
    assert_eq!(a.frame, b.frame);
    assert_eq!(a.checksum(), b.checksum());
}

/// Stepping frame by frame is the same run as replaying the whole list.
#[test]
fn replay_equals_stepping() {
    let world = empty_world();
    let inputs = scripted_inputs(60);
    let mut a = GameSim::new(7);
    let mut b = GameSim::new(7);
    a.run_frames(&inputs, &world);
    for frame in &inputs {
        b.step(*frame, &world);
    }
    assert!(a.same_state(&b));
}

/// A different seed picks different spawn points.
#[test]
fn seeds_pick_different_spawns() {
    let world = empty_world();
    let mut a = GameSim::new(1);
    let mut b = GameSim::new(1000000);
    a.step((idle(), idle()), &world);
    b.step((idle(), idle()), &world);
    assert!(!a.same_state(&b));
    let spawn_set = &world.spawnpoints;
    assert!(spawn_set.contains(&(a.players[0].pos_x, a.players[0].pos_y)));
    assert!(spawn_set.contains(&(b.players[0].pos_x, b.players[0].pos_y)));
}

/// The first step of a match respawns both players onto distinct spawn
/// points with round-start components.
#[test]
fn first_frame_respawns_the_round() {
    let world = empty_world();
    let mut sim = GameSim::new(1028);
    sim.step((idle(), idle()), &world);
    let p0 = (sim.players[0].pos_x, sim.players[0].pos_y);
    let p1 = (sim.players[1].pos_x, sim.players[1].pos_y);
    assert!(world.spawnpoints.contains(&p0));
    assert!(world.spawnpoints.contains(&p1));
    assert_ne!(p0, p1);
    assert_eq!(sim.players[0].health, Health(1));
    assert!(sim.players[0].can_shoot.value);
    assert_eq!(sim.frame, 1);
}

/// A held fire control with a cooled-down bow looses exactly one bullet.
#[test]
fn shooting_spawns_one_bullet_and_starts_the_cooldown() {
    let world = empty_world();
    let mut sim = GameSim::new(1028);
    sim.step((firing(0), idle()), &world);
    assert_eq!(sim.bullets.len(), 1);
    let b = &sim.bullets[0];
    assert_eq!(b.bullet, Bullet { shot_by: 0 });
    // Shot straight up: spawned 16 pixels above the shooter, already
    // advanced one frame of velocity, one frame of life spent.
    assert_eq!(b.pos_x, sim.players[0].pos_x);
    assert_eq!(b.pos_y, sim.players[0].pos_y + 4096 + 640);
    assert_eq!((b.vel_x, b.vel_y), (0, 640));
    assert_eq!(b.lifetime, Lifetime(BULLET_LIFETIME - 1));
    assert!(!sim.players[0].can_shoot.value);

    // Holding fire does not shoot again while the cooldown runs.
    for _ in 0..20 {
        sim.step((firing(0), idle()), &world);
    }
    assert_eq!(sim.bullets.len(), 1);
}

/// Movement integrates the input direction at the movement speed.
#[test]
fn movement_runs_at_move_speed() {
    let world = empty_world();
    let mut sim = GameSim::new(1028);
    sim.step((idle(), idle()), &world);
    let x0 = sim.players[0].pos_x;
    let y0 = sim.players[0].pos_y;
    sim.step((moving(64), idle()), &world);
    assert_eq!(sim.players[0].velocity, Velocity { x: 358, y: 0 });
    assert_eq!(sim.players[0].pos_x, x0 + 358);
    assert_eq!(sim.players[0].pos_y, y0);
    // A diagonal runs at the same speed, split over both axes.
    sim.step((moving(32), idle()), &world);
    let v = sim.players[0].velocity;
    assert_eq!(v.x, v.y);
    assert!(v.x > 0);
    let speed2 = v.x * v.x + v.y * v.y;
    assert!(speed2 <= 358 * 358);
    assert!(speed2 >= 340 * 340);
    // Without the move bit the player stops.
    sim.step((idle(), idle()), &world);
    assert_eq!(sim.players[0].velocity, Velocity { x: 0, y: 0 });
}

fn manual_player(slot: usize, x: i64, y: i64) -> PlayerState {
    PlayerState {
        player: Player { id: slot },
        pos_x: x,
        pos_y: y,
        velocity: Velocity { x: 0, y: 0 },
        can_shoot: CanShoot { value: true, since_last: 999 },
        walls: WallContactState::default(),
        health: Health(1),
        points: Points(0),
        input_angle: InputAngle(0),
        damaged: false,
        last_damaged_by: LastDamagedBy { id: 0 },
    }
}

fn manual_sim(frame: u64) -> GameSim {
    GameSim {
        players: vec![manual_player(0, 0, 0), manual_player(1, 100_000, 100_000)],
        bullets: vec![],
        rng: Rng::new(1028),
        frame,
    }
}

/// A wall on the right is sensed, blocks rightward movement, and lets
/// the player slide along it.
#[test]
fn walls_block_and_let_slide() {
    let mut world = empty_world();
    world.terrain.push(TerrainBlock {
        hitbox: Hitbox::Rect { offset_x: 0, offset_y: 0, half_w: 50, half_h: 1000 },
        x: 1100,
        y: 0,
    });
    let mut sim = manual_sim(5);
    sim.step((moving(64), idle()), &world);
    assert!(sim.players[0].walls.right);
    assert!(!sim.players[0].walls.left);
    assert_eq!(sim.players[0].velocity, Velocity { x: 0, y: 0 });
    assert_eq!((sim.players[0].pos_x, sim.players[0].pos_y), (0, 0));
    // Moving up slides along the wall unhindered.
    sim.step((moving(0), idle()), &world);
    assert_eq!(sim.players[0].velocity, Velocity { x: 0, y: 358 });
}

/// A player standing inside terrain is pushed back out.
#[test]
fn terrain_pushes_the_player_out() {
    let mut world = empty_world();
    world.terrain.push(TerrainBlock {
        hitbox: Hitbox::Rect { offset_x: 0, offset_y: 0, half_w: 500, half_h: 5000 },
        x: 1200,
        y: 0,
    });
    // The hull [-1050, 1050] overlaps the block [700, 1700] by 350.
    let mut sim = manual_sim(5);
    sim.step((idle(), idle()), &world);
    assert_eq!(sim.players[0].pos_x, -350);
    assert_eq!(sim.players[0].pos_y, 0);
}

/// A player overlapping a circular terrain block is pushed back out,
/// radially.
#[test]
fn circular_terrain_pushes_the_player_out() {
    let mut world = empty_world();
    world.terrain.push(TerrainBlock {
        hitbox: Hitbox::Circle { offset_x: 0, offset_y: 0, radius: 500 },
        x: 1400,
        y: 0,
    });
    // The hull reaches to 1050; the circle spans from 900, overlapping
    // by 350 of its 500 radius.
    let mut sim = manual_sim(5);
    sim.step((idle(), idle()), &world);
    assert_eq!((sim.players[0].pos_x, sim.players[0].pos_y), (-150, 0));
}

/// An overlapping bullet damages the player, credits the shooter, and
/// despawns.
#[test]
fn bullets_damage_credit_and_despawn() {
    let world = empty_world();
    let mut sim = manual_sim(5);
    sim.bullets.push(BulletState {
        bullet: Bullet { shot_by: 1 },
        pos_x: 0,
        pos_y: 0,
        vel_x: 0,
        vel_y: 0,
        lifetime: Lifetime(10),
    });
    sim.step((idle(), idle()), &world);
    assert_eq!(sim.players[0].health, Health(0));
    assert_eq!(sim.players[1].points, Points(100));
    assert!(!sim.players[0].damaged);
    assert_eq!(sim.bullets.len(), 0);

    // The death rewinds the next step to a fresh round.
    sim.step((idle(), idle()), &world);
    assert_eq!(sim.players[0].health, Health(1));
    assert_eq!(sim.frame, 1);
    // Score survives the respawn.
    assert_eq!(sim.players[1].points, Points(100));
}

/// A bullet's last frame of life ends with it culled.
#[test]
fn expired_bullets_are_culled() {
    let world = empty_world();
    let mut sim = manual_sim(5);
    sim.bullets.push(BulletState {
        bullet: Bullet { shot_by: 0 },
        pos_x: 50_000,
        pos_y: 50_000,
        vel_x: 100,
        vel_y: 0,
        lifetime: Lifetime(2),
    });
    sim.step((idle(), idle()), &world);
    assert_eq!(sim.bullets.len(), 1);
    assert_eq!(sim.bullets[0].lifetime, Lifetime(1));
    assert_eq!(sim.bullets[0].pos_x, 50_100);
    sim.step((idle(), idle()), &world);
    assert_eq!(sim.bullets.len(), 0);
}

/// The order in which the static world lists its terrain blocks cannot
/// affect the simulation: pushes accumulate and sensing is existential.
#[test]
fn terrain_order_does_not_matter() {
    let blocks = vec![
        TerrainBlock {
            hitbox: Hitbox::Rect { offset_x: 0, offset_y: 0, half_w: 500, half_h: 5000 },
            x: 1200,
            y: 0,
        },
        TerrainBlock {
            hitbox: Hitbox::Rect { offset_x: 0, offset_y: 0, half_w: 400, half_h: 400 },
            x: 0,
            y: -1300,
        },
        TerrainBlock {
            hitbox: Hitbox::Rect { offset_x: 0, offset_y: 0, half_w: 900, half_h: 80 },
            x: -1500,
            y: 600,
        },
    ];
    let mut forward = empty_world();
    forward.terrain = blocks.clone();
    let mut backward = empty_world();
    backward.terrain = blocks.into_iter().rev().collect();

    let inputs = scripted_inputs(120);
    let mut a = GameSim::new(1028);
    let mut b = GameSim::new(1028);
    a.run_frames(&inputs, &forward);
    b.run_frames(&inputs, &backward);
    assert!(a.same_state(&b));
}

/// A bullet that overlaps both players damages both and despawns once,
/// crediting its shooter for each victim.
#[test]
fn one_bullet_can_strike_both_players() {
    let world = empty_world();
    let mut sim = manual_sim(5);
    // Bring the players close enough that one bullet overlaps both.
    sim.players[1].pos_x = 1000;
    sim.players[1].pos_y = 1000;
    sim.bullets.push(BulletState {
        bullet: Bullet { shot_by: 1 },
        pos_x: 0,
        pos_y: 0,
        vel_x: 0,
        vel_y: 0,
        lifetime: Lifetime(10),
    });
    sim.step((idle(), idle()), &world);
    assert_eq!(sim.players[0].health, Health(0));
    assert_eq!(sim.players[1].health, Health(0));
    assert_eq!(sim.players[1].points, Points(200));
    assert_eq!(sim.bullets.len(), 0);
}

/// The snapshot comparison spots any single divergence.
#[test]
fn same_state_spots_divergence() {
    let a = manual_sim(5);
    let mut b = manual_sim(5);
    assert!(a.same_state(&b));
    b.players[1].points = Points(1);
    assert!(!a.same_state(&b));
    let mut c = manual_sim(5);
    c.frame = 6;
    assert!(!a.same_state(&c));
    let mut d = manual_sim(5);
    d.rng = Rng::new(1);
    assert!(!a.same_state(&d));
    assert_ne!(a.checksum(), b.checksum());
    assert_ne!(a.checksum(), c.checksum());
    assert_ne!(a.checksum(), d.checksum());
}
