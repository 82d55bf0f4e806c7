use asteroid_field::asteroids::spawn::spawn_asteroids;
use asteroid_field::asteroids::{AsteroidSpawner, Ring};
use asteroid_field::gamedata::{FrameInput, GameData};
use asteroid_field::gamestate::{handle_gamestate_system, GameState};
use asteroid_field::rocket::{Rocket, RocketSpecs};
use asteroid_field::sim::Simulation;

fn input(left: bool, right: bool, confirm: bool) -> FrameInput {
    FrameInput {
        mouse_pressed: false,
        cursor_left_half: false,
        key_left: left,
        key_right: right,
        confirm,
    }
}

fn playing_sim() -> Simulation {
    let mut sim = Simulation::new();
    sim.data.game_state = GameState::Playing;
    sim
}

fn rings_equal(a: &Ring, b: &Ring) -> bool {
    a.x == b.x
        && a.z == b.z
        && a.asteroids == b.asteroids
        && a.border == b.border
}

#[test]
fn spawn_creates_ring_with_border_wall() {
    // One spawner tick at the default configuration: a ring at the spawn
    // plane with up to two interior asteroids and floor(24/4) = 6 border
    // pairs, and the cadence counter reset to the spawn plane.
    let mut sim = playing_sim();
    assert_eq!(sim.spawner.last_z_position, 0);
    spawn_asteroids(&mut sim.spawner, &mut sim.rings, GameState::Playing);
    assert_eq!(sim.rings.len(), 1);
    let ring = &sim.rings[0];
    assert_eq!(ring.z, -300_000);
    assert_eq!(ring.x, 0);
    assert!(ring.asteroids.len() <= 2);
    assert_eq!(ring.border.len(), 12);
    assert_eq!(sim.spawner.last_z_position, -300_000);
    for (i, inst) in ring.border.iter().enumerate() {
        // pairs alternate left wall, right wall, at 4-unit forward steps
        let expected_x = if i % 2 == 0 { -12_000 } else { 12_000 };
        assert_eq!(inst.x_offset, expected_x);
        assert_eq!(inst.z_offset, (i as i64 / 2) * 4_000);
        // 6 pairs % 3 kinds picks shape 0 for the whole wall
        assert_eq!(inst.shape, 0);
    }
}

#[test]
fn spawn_is_noop_outside_playing() {
    let mut sim = Simulation::new();
    spawn_asteroids(&mut sim.spawner, &mut sim.rings, GameState::Menu);
    assert_eq!(sim.rings.len(), 0);
    assert_eq!(sim.spawner.last_z_position, 0);
    spawn_asteroids(&mut sim.spawner, &mut sim.rings, GameState::Dead);
    assert_eq!(sim.rings.len(), 0);
}

#[test]
fn spawn_is_noop_before_interval() {
    let mut sim = playing_sim();
    sim.spawner.last_z_position = -280_000; // below -300 + 24
    spawn_asteroids(&mut sim.spawner, &mut sim.rings, GameState::Playing);
    assert_eq!(sim.rings.len(), 0);
    assert_eq!(sim.spawner.last_z_position, -280_000);
}

#[test]
fn spawned_instances_within_ranges() {
    // Every drawn quantity lands in its documented window; a draw that
    // handed back its seed or its bound unchanged would land far outside.
    let mut sim = playing_sim();
    for _ in 0..200 {
        sim.tick(16, input(false, false, false));
    }
    assert!(!sim.rings.is_empty());
    for ring in &sim.rings {
        for inst in &ring.asteroids {
            assert!(inst.shape < 2);
            assert!(-12_000 <= inst.x_offset && inst.x_offset < 12_000);
            assert!(0 <= inst.z_offset && inst.z_offset < 15_000);
            assert!(0 <= inst.axis_x && inst.axis_x < 1_000);
            assert!(0 <= inst.axis_y && inst.axis_y < 1_000);
            assert!(0 <= inst.angle && inst.angle < 3_140);
            assert!(750 <= inst.scale && inst.scale < 1_000);
        }
        for inst in &ring.border {
            assert!(inst.shape < 3);
            assert!(0 <= inst.axis_x && inst.axis_x < 1_000);
            assert!(0 <= inst.axis_y && inst.axis_y < 1_000);
            assert!(0 <= inst.angle && inst.angle < 3_140);
            assert!(750 <= inst.scale && inst.scale < 1_000);
        }
    }
}

#[test]
fn interior_asteroids_keep_min_spacing() {
    // Spacing invariant on concrete rings: every pair of interior asteroids
    // of one ring sits at least min_x_spacing apart laterally.
    let mut sim = playing_sim();
    for _ in 0..400 {
        sim.tick(16, input(false, false, false));
    }
    let mut saw_pair = false;
    for ring in &sim.rings {
        for a in 0..ring.asteroids.len() {
            for b in 0..ring.asteroids.len() {
                if a != b {
                    saw_pair = true;
                    let d = (ring.asteroids[a].x_offset - ring.asteroids[b].x_offset).abs();
                    assert!(d >= 2_000);
                }
            }
        }
    }
    // with up to two interior asteroids per ring and many rings, at least
    // one ring should have drawn a pair
    assert!(saw_pair);
}

#[test]
fn identical_runs_produce_identical_fields() {
    // Determinism: the same delta-times and the same input trace give a
    // bit-identical field, because every draw is seeded from the distance
    // traveled and a counter.
    let mut a = playing_sim();
    let mut b = playing_sim();
    for frame in 0..150u32 {
        let left = frame % 7 < 3;
        let right = frame % 11 == 0 && !left;
        a.tick(16, input(left, right, false));
        b.tick(16, input(left, right, false));
    }
    assert_eq!(a.spawner.x_translation, b.spawner.x_translation);
    assert_eq!(a.spawner.x_velocity, b.spawner.x_velocity);
    assert_eq!(a.spawner.last_z_position, b.spawner.last_z_position);
    assert_eq!(a.spawner.distance_traveled, b.spawner.distance_traveled);
    assert_eq!(a.rocket.y_rotation, b.rocket.y_rotation);
    assert_eq!(a.rings.len(), b.rings.len());
    assert!(!a.rings.is_empty());
    for (ra, rb) in a.rings.iter().zip(b.rings.iter()) {
        assert!(rings_equal(ra, rb));
    }
}

#[test]
fn ring_spawns_exactly_at_interval() {
    // Spawn cadence: the first frame spawns (the counter starts at the
    // spawn condition), and the next ring comes exactly when 24 units of
    // forward scroll have accumulated: 960 milliunits per 16 ms frame, so
    // on frame 26.
    let mut sim = playing_sim();
    sim.tick(16, input(false, false, false));
    assert_eq!(sim.rings.len(), 1);
    for _ in 2..=25u32 {
        sim.tick(16, input(false, false, false));
        assert_eq!(sim.rings.len(), 1);
    }
    sim.tick(16, input(false, false, false));
    assert_eq!(sim.rings.len(), 2);
}

#[test]
fn ring_removed_when_past_camera() {
    // Despawn correctness: a ring is kept while its forward coordinate is
    // at most zero and removed on the first frame it becomes positive.
    let mut sim = Simulation {
        data: GameData {
            game_state: GameState::Playing,
            score: 0,
            move_left: false,
            move_right: false,
        },
        specs: RocketSpecs {
            steering_speed: 1_000,
            max_x_velocity: 18_000,
            max_steering_angle: 333,
        },
        rocket: Rocket { y_rotation: 0 },
        spawner: AsteroidSpawner {
            z_spawn_position: -1_000,
            // already past the (huge) interval, so exactly one ring spawns
            last_z_position: 999_000,
            z_interval: 1_000_000,
            z_rand: 15_000,
            min_x_spacing: 2_000,
            z_velocity: 60_000,
            x_velocity: 0,
            x_translation: 0,
            max_x: 12_000,
            distance_traveled: 0,
        },
        rings: Vec::new(),
    };
    // frame 1: spawns at -1000 and moves it by 960 to -40: kept
    sim.tick(16, input(false, false, false));
    assert_eq!(sim.rings.len(), 1);
    assert_eq!(sim.rings[0].z, -40);
    // frame 2: -40 + 960 = 920 > 0: removed, exactly now
    sim.tick(16, input(false, false, false));
    assert_eq!(sim.rings.len(), 0);
    // frame 3: nothing left to remove, nothing spawns (interval is huge)
    sim.tick(16, input(false, false, false));
    assert_eq!(sim.rings.len(), 0);
}

#[test]
fn menu_state_freezes_field() {
    // Freeze property: while not Playing nothing spawns, nothing moves,
    // and lateral state is untouched, whatever the steering input.
    let mut sim = Simulation::new();
    for frame in 0..30u32 {
        sim.tick(16, input(frame % 2 == 0, frame % 2 == 1, false));
        assert_eq!(sim.data.game_state, GameState::Menu);
        assert_eq!(sim.rings.len(), 0);
        assert_eq!(sim.spawner.x_translation, 0);
        assert_eq!(sim.spawner.x_velocity, 0);
        assert_eq!(sim.spawner.last_z_position, 0);
        assert_eq!(sim.spawner.distance_traveled, 0);
        assert_eq!(sim.rocket.y_rotation, 0);
    }
    // the confirm frame still leaves the field frozen; motion starts on the
    // next frame
    sim.tick(16, input(false, false, true));
    assert_eq!(sim.data.game_state, GameState::Playing);
    assert_eq!(sim.rings.len(), 0);
    assert_eq!(sim.spawner.distance_traveled, 0);
    sim.tick(16, input(false, false, false));
    assert_eq!(sim.rings.len(), 1);
    assert_eq!(sim.spawner.distance_traveled, 960);
}

#[test]
fn confirm_edge_drives_state_machine() {
    assert_eq!(
        handle_gamestate_system(GameState::Menu, false),
        GameState::Menu
    );
    assert_eq!(
        handle_gamestate_system(GameState::Menu, true),
        GameState::Playing
    );
    assert_eq!(
        handle_gamestate_system(GameState::Playing, true),
        GameState::Playing
    );
    assert_eq!(
        handle_gamestate_system(GameState::Playing, false),
        GameState::Playing
    );
    assert_eq!(
        handle_gamestate_system(GameState::Dead, true),
        GameState::Playing
    );
    assert_eq!(
        handle_gamestate_system(GameState::Dead, false),
        GameState::Dead
    );
}

#[test]
fn move_intent_follows_input() {
    let mut data = GameData {
        game_state: GameState::Playing,
        score: 0,
        move_left: false,
        move_right: false,
    };
    data.move_direction_system(FrameInput {
        mouse_pressed: true,
        cursor_left_half: true,
        key_left: false,
        key_right: false,
        confirm: false,
    });
    assert!(data.move_left);
    assert!(!data.move_right);
    data.move_direction_system(FrameInput {
        mouse_pressed: true,
        cursor_left_half: false,
        key_left: false,
        key_right: false,
        confirm: false,
    });
    // the mouse sets the other flag without clearing the first
    assert!(data.move_left);
    assert!(data.move_right);
    data.move_direction_system(input(false, false, false));
    assert!(!data.move_left);
    assert!(!data.move_right);
    data.move_direction_system(input(true, false, false));
    assert!(data.move_left);
    assert!(!data.move_right);
    data.move_direction_system(input(false, true, false));
    assert!(data.move_left && data.move_right);
}

#[test]
fn one_steering_frame_matches_formula() {
    // delta-v per 16 ms frame at the defaults:
    // (16 * 1000 / 1000) * 18000 / 333 = 864, and the position advances by
    // 864 * 16 / 1000 = 13 milliunits in the same frame.
    let mut sim = playing_sim();
    sim.tick(16, input(true, false, false));
    assert_eq!(sim.spawner.x_velocity, 864);
    assert_eq!(sim.spawner.x_translation, 13);
    let mut sim_r = playing_sim();
    sim_r.tick(16, input(false, true, false));
    assert_eq!(sim_r.spawner.x_velocity, -864);
    assert_eq!(sim_r.spawner.x_translation, -13);
}

#[test]
fn steering_left_velocity_monotone() {
    // Steering left continuously: the lateral velocity climbs monotonically
    // toward +max_x_velocity, clamps exactly there, and never exceeds it.
    let mut sim = playing_sim();
    let mut prev = sim.spawner.x_velocity;
    for _ in 0..200u32 {
        sim.tick(16, input(true, false, false));
        let v = sim.spawner.x_velocity;
        assert!(v >= prev);
        assert!(v <= 18_000);
        prev = v;
    }
    assert_eq!(sim.spawner.x_velocity, 18_000);
}

#[test]
fn lateral_position_and_velocity_bounded() {
    // Bounds invariant: velocity stays within the velocity bound and the
    // position within the lateral bound plus at most one frame of travel
    // (the position is clamped before the velocity is applied).
    let mut sim = playing_sim();
    for frame in 0..600u32 {
        let left = frame < 400;
        sim.tick(16, input(left, !left, false));
        assert!(sim.spawner.x_velocity.abs() <= 18_000);
        assert!(sim.spawner.x_translation.abs() <= 12_000 + 18_000 * 16 / 1_000);
    }
}

#[test]
fn velocity_decays_to_zero_without_input() {
    let mut sim = playing_sim();
    for _ in 0..40u32 {
        sim.tick(16, input(true, false, false));
    }
    assert!(sim.spawner.x_velocity > 0);
    let mut prev = sim.spawner.x_velocity;
    for _ in 0..40u32 {
        sim.tick(16, input(false, false, false));
        let v = sim.spawner.x_velocity;
        assert!(v <= prev);
        assert!(v >= 0);
        prev = v;
    }
    assert_eq!(sim.spawner.x_velocity, 0);
}

#[test]
fn rocket_yaw_clamps_at_steering_bound() {
    // The rocket turns 16 milliradians per 16 ms frame and stops turning
    // once its yaw reaches the steering bound of 333, so it rests at 336.
    let mut sim = playing_sim();
    for _ in 0..100u32 {
        sim.tick(16, input(true, false, false));
        assert!(sim.rocket.y_rotation <= 333 + 16);
    }
    assert_eq!(sim.rocket.y_rotation, 336);
    // and decays back to exactly zero with no input
    for _ in 0..100u32 {
        sim.tick(16, input(false, false, false));
    }
    assert_eq!(sim.rocket.y_rotation, 0);
}
