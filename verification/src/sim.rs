//! The whole simulation: one value owning the game data, the rocket, the
//! spawner and the live rings, stepped once per rendered frame in a fixed
//! order.  The spawner observes the cadence counter before the integrator
//! advances it, so a spawn can never be missed or double-fired.

use vstd::prelude::*;
use crate::asteroids::spawn::{spawn_asteroids, spawn_due, spec_new_ring, spec_spawn};
use crate::asteroids::{
    asteroid_movement, asteroid_spawner_movement, despawn_asteroids, lemma_despawn_all_alive,
    lemma_despawn_exact, ring_alive, ring_wf, rings_view, spec_despawn, spec_integrate,
    spec_move_rings, AsteroidSpawner, Ring, RingModel, SpawnerModel, DIST_MAX,
};
use crate::gamedata::{spec_move_intent, FrameInput, GameData};
use crate::gamestate::{handle_gamestate_system, spec_handle_gamestate, GameState};
use crate::rocket::{spec_steer_rocket, Rocket, RocketSpecs, ROTATION_CAP};
use crate::units::{DT_MAX, PARAM_CAP};

verus! {

/// The process-wide simulation state: everything a frame reads or writes.
pub struct Simulation {
    pub data: GameData,
    pub specs: RocketSpecs,
    pub rocket: Rocket,
    pub spawner: AsteroidSpawner,
    pub rings: Vec<Ring>,
}

#[verifier::ext_equal]
pub ghost struct SimModel {
    pub game_state: GameState,
    pub score: int,
    pub move_left: bool,
    pub move_right: bool,
    pub specs: RocketSpecs,
    pub y_rotation: int,
    pub spawner: SpawnerModel,
    pub rings: Seq<RingModel>,
}

impl View for Simulation {
    type V = SimModel;

    open spec fn view(&self) -> SimModel {
        SimModel {
            game_state: self.data.game_state,
            score: self.data.score as int,
            move_left: self.data.move_left,
            move_right: self.data.move_right,
            specs: self.specs,
            y_rotation: self.rocket.y_rotation as int,
            spawner: self.spawner.view(),
            rings: rings_view(self.rings.view()),
        }
    }
}

impl SimModel {
    pub open spec fn wf(self) -> bool {
        &&& self.spawner.wf()
        &&& self.specs.wf()
        &&& -ROTATION_CAP <= self.y_rotation <= ROTATION_CAP
        &&& forall|i: int|
            0 <= i < self.rings.len() ==> ring_wf(#[trigger] self.rings[i], self.spawner)
    }
}

/// One simulated frame.  The steering intent flags are refreshed from the
/// raw input first; then, while `Playing`, the spawner fires if due, the
/// integrator advances the lateral and forward state, the rocket turns, and
/// the rings move; the despawn sweep runs in every state; and the confirm
/// edge drives the state machine last, so a state entered this frame takes
/// effect on the next.
pub open spec fn spec_tick(m: SimModel, dt: int, inp: FrameInput) -> SimModel {
    let flags = spec_move_intent(m.move_left, m.move_right, inp);
    let gs = m.game_state;
    let sr = spec_spawn(m.spawner, m.rings, gs);
    let sp2 = if gs is Playing {
        spec_integrate(sr.0, m.specs, dt, flags.0, flags.1)
    } else {
        sr.0
    };
    let y2 = if gs is Playing {
        spec_steer_rocket(m.y_rotation, dt, m.specs, flags.0, flags.1)
    } else {
        m.y_rotation
    };
    let rings2 = if gs is Playing {
        spec_move_rings(sr.1, sp2.x_translation, m.spawner.z_velocity * dt / 1000)
    } else {
        sr.1
    };
    let rings3 = spec_despawn(rings2);
    SimModel {
        game_state: spec_handle_gamestate(gs, inp.confirm),
        score: m.score,
        move_left: flags.0,
        move_right: flags.1,
        specs: m.specs,
        y_rotation: y2,
        spawner: sp2,
        rings: rings3,
    }
}

impl Simulation {
    /// The simulation as the game starts: the menu is up, the field is
    /// empty, and the spawner and rocket carry the game's configuration.
    pub fn new() -> (s: Simulation)
        ensures
            s.view().wf(),
            s.view().game_state is Menu,
            s.view().score == 0,
            !s.view().move_left,
            !s.view().move_right,
            s.view().y_rotation == 0,
            s.view().rings.len() == 0,
            s.view().spawner == (SpawnerModel {
                z_spawn_position: -300_000,
                last_z_position: 0,
                z_interval: 24_000,
                z_rand: 15_000,
                min_x_spacing: 2_000,
                z_velocity: 60_000,
                x_velocity: 0,
                x_translation: 0,
                max_x: 12_000,
                distance_traveled: 0,
            }),
            s.view().specs.steering_speed == 1_000,
            s.view().specs.max_x_velocity == 18_000,
            s.view().specs.max_steering_angle == 333,
    {
        Simulation {
            data: GameData {
                game_state: GameState::Menu,
                score: 0,
                move_left: false,
                move_right: false,
            },
            specs: RocketSpecs {
                steering_speed: 1_000,
                max_x_velocity: 18_000,
                max_steering_angle: 333,
            },
            rocket: Rocket { y_rotation: 0 },
            spawner: AsteroidSpawner {
                z_spawn_position: -300_000,
                last_z_position: 0,
                z_interval: 24_000,
                z_rand: 15_000,
                min_x_spacing: 2_000,
                z_velocity: 60_000,
                x_velocity: 0,
                x_translation: 0,
                max_x: 12_000,
                distance_traveled: 0,
            },
            rings: Vec::new(),
        }
    }

    /// Steps the simulation by one frame of `dt` milliseconds.
    pub fn tick(&mut self, dt: u64, inp: FrameInput)
        requires
            old(self).view().wf(),
            dt <= DT_MAX,
            old(self).view().spawner.distance_traveled <= DIST_MAX as int,
            old(self).view().spawner.last_z_position <= DIST_MAX as int,
        ensures
            final(self).view() == spec_tick(old(self).view(), dt as int, inp),
            final(self).view().wf(),
    {
        let ghost m0 = self.view();
        self.data.move_direction_system(inp);
        let gs = self.data.game_state;
        spawn_asteroids(&mut self.spawner, &mut self.rings, gs);
        let ghost sp_sp = self.spawner.view();
        let ghost rings_sp = rings_view(self.rings.view());
        asteroid_spawner_movement(
            &mut self.spawner,
            &self.specs,
            gs,
            dt,
            self.data.move_left,
            self.data.move_right,
        );
        match gs {
            GameState::Playing => {
                self.rocket.steer_rocket(dt, &self.specs, self.data.move_left, self.data.move_right);
            }
            _ => {}
        }
        proof {
            assert forall|i: int| 0 <= i < self.rings.view().len() implies -PARAM_CAP
                <= (#[trigger] self.rings.view()[i]).z <= 0 by {
                assert(rings_view(self.rings.view())[i] == self.rings.view()[i].view());
                if m0.game_state is Playing && spawn_due(m0.spawner) {
                    if i < m0.rings.len() {
                        assert(rings_view(self.rings.view())[i] == m0.rings[i]);
                        assert(ring_wf(m0.rings[i], m0.spawner));
                    } else {
                        assert(rings_view(self.rings.view())[i] == spec_new_ring(m0.spawner));
                        assert(ring_wf(spec_new_ring(m0.spawner), m0.spawner));
                    }
                } else {
                    assert(rings_view(self.rings.view())[i] == m0.rings[i]);
                    assert(ring_wf(m0.rings[i], m0.spawner));
                }
            }
        }
        asteroid_movement(&mut self.rings, &self.spawner, gs, dt);
        let ghost rings_mv = rings_view(self.rings.view());
        despawn_asteroids(&mut self.rings);
        self.data.game_state = handle_gamestate_system(gs, inp.confirm);
        proof {
            let m1 = spec_tick(m0, dt as int, inp);
            assert(self.spawner.view().same_config(m0.spawner));
            assert(self.view().spawner == m1.spawner);
            assert(self.view().y_rotation == m1.y_rotation);
            // the moved rings are exactly what the tick's movement stage gives
            if gs is Playing {
                assert(self.spawner.view().z_velocity == m0.spawner.z_velocity);
                assert(rings_mv =~~= spec_move_rings(
                    rings_sp,
                    self.spawner.view().x_translation,
                    m0.spawner.z_velocity * dt / 1000,
                ));
            }
            assert(self.view().rings == m1.rings);
            assert(self.view() =~~= m1);
            // well-formedness of what survives the sweep
            lemma_despawn_exact(rings_mv);
            assert forall|i: int| 0 <= i < self.view().rings.len() implies ring_wf(
                #[trigger] self.view().rings[i],
                self.view().spawner,
            ) by {
                let r = self.view().rings[i];
                assert(rings_mv.contains(r));
                let w = choose|w: int| 0 <= w < rings_mv.len() && rings_mv[w] == r;
                if gs is Playing {
                    assert(rings_mv[w] == spec_move_rings(
                        rings_sp,
                        self.spawner.view().x_translation,
                        m0.spawner.z_velocity * dt / 1000,
                    )[w]);
                    assert(ring_wf(rings_sp[w], m0.spawner));
                } else {
                    assert(ring_wf(rings_sp[w], m0.spawner));
                }
            }
        }
    }
}

/// The simulation after a whole trace of frames, each a delta-time in
/// milliseconds and the frame's input.
pub open spec fn spec_run(m: SimModel, frames: Seq<(int, FrameInput)>) -> SimModel
    decreases frames.len(),
{
    if frames.len() == 0 {
        m
    } else {
        spec_run(spec_tick(m, frames[0].0, frames[0].1), frames.drop_first())
    }
}

/// Determinism: two runs from equal states over equal traces of frame
/// delta-times and inputs end in equal states — every random draw is seeded
/// from the distance traveled and a counter, both part of the state, so one
/// frame is a function of its inputs, and by induction so is a whole trace.
pub proof fn lemma_run_deterministic(
    m1: SimModel,
    m2: SimModel,
    frames1: Seq<(int, FrameInput)>,
    frames2: Seq<(int, FrameInput)>,
)
    requires
        m1 == m2,
        frames1 == frames2,
    ensures
        spec_run(m1, frames1) == spec_run(m2, frames2),
{
}

/// Spacing invariant: in a well-formed simulation every pair of distinct
/// interior asteroids of one ring keeps the minimum lateral spacing — and
/// `tick` keeps the simulation well-formed, so this holds for all time.
pub proof fn lemma_spacing_invariant(m: SimModel, r: int, a: int, b: int)
    requires
        m.wf(),
        0 <= r < m.rings.len(),
        0 <= a < m.rings[r].asteroids.len(),
        0 <= b < m.rings[r].asteroids.len(),
        a != b,
    ensures
        crate::units::abs_val(
            m.rings[r].asteroids[a].x_offset - m.rings[r].asteroids[b].x_offset,
        ) >= m.spawner.min_x_spacing,
{
    assert(ring_wf(m.rings[r], m.spawner));
}

/// Bounds invariant: a `Playing` frame leaves the lateral velocity clamped
/// within the velocity bound, and the lateral position within the lateral
/// bound plus at most one frame of travel.  The position can overshoot by
/// that one frame because it is clamped before the velocity is applied.
pub proof fn lemma_bounds_invariant(m: SimModel, dt: int, inp: FrameInput)
    requires
        m.wf(),
        0 <= dt <= DT_MAX,
        m.game_state is Playing,
    ensures
        -m.specs.max_x_velocity <= spec_tick(m, dt, inp).spawner.x_velocity
            <= m.specs.max_x_velocity,
        -(m.spawner.max_x + m.specs.max_x_velocity as int * dt / 1000) <= spec_tick(
            m,
            dt,
            inp,
        ).spawner.x_translation <= m.spawner.max_x + m.specs.max_x_velocity as int * dt / 1000,
{
    let flags = spec_move_intent(m.move_left, m.move_right, inp);
    let sp1 = spec_spawn(m.spawner, m.rings, m.game_state).0;
    let sp2 = spec_integrate(sp1, m.specs, dt, flags.0, flags.1);
    let vd = crate::asteroids::spec_velocity_delta(sp1, m.specs, dt, flags.0, flags.1);
    let v1 = crate::asteroids::clamp_spec(
        vd.0 + vd.1,
        -(m.specs.max_x_velocity as int),
        m.specs.max_x_velocity as int,
    );
    assert(sp2.x_velocity == v1);
    if v1 >= 0 {
        crate::units::lemma_mul_le(v1, dt, m.specs.max_x_velocity as int, dt);
        vstd::arithmetic::div_mod::lemma_div_is_ordered(
            v1 * dt,
            m.specs.max_x_velocity as int * dt,
            1000,
        );
    } else {
        crate::units::lemma_mul_le(-v1, dt, m.specs.max_x_velocity as int, dt);
        vstd::arithmetic::div_mod::lemma_div_is_ordered(
            (-v1) * dt,
            m.specs.max_x_velocity as int * dt,
            1000,
        );
    }
    assert(0 <= m.specs.max_x_velocity as int * dt / 1000);
}

/// Spawn cadence: a frame creates a ring if and only if the game is
/// `Playing` and the forward scroll since the last ring has reached the
/// interval; the spawn resets the cadence counter to the spawn plane, so the
/// same crossing cannot fire twice.
pub proof fn lemma_spawn_cadence(m: SimModel)
    requires
        m.wf(),
    ensures
        spec_spawn(m.spawner, m.rings, m.game_state).1.len() == m.rings.len() + (
        if m.game_state is Playing && spawn_due(m.spawner) {
            1int
        } else {
            0int
        }),
        m.game_state is Playing && spawn_due(m.spawner) ==> spec_spawn(
            m.spawner,
            m.rings,
            m.game_state,
        ).0.last_z_position == m.spawner.z_spawn_position,
        m.game_state is Playing && spawn_due(m.spawner) && m.spawner.z_interval > 0
            ==> !spawn_due(spec_spawn(m.spawner, m.rings, m.game_state).0),
        !(m.game_state is Playing && spawn_due(m.spawner)) ==> spec_spawn(
            m.spawner,
            m.rings,
            m.game_state,
        ) == (m.spawner, m.rings),
{
}

/// Freeze property: while the game state is not `Playing`, a frame spawns no
/// ring, moves no ring, and leaves the spawner's lateral position, velocity
/// and forward counters, and the rocket's yaw, exactly as they were.
pub proof fn lemma_freeze(m: SimModel, dt: int, inp: FrameInput)
    requires
        m.wf(),
        !(m.game_state is Playing),
    ensures
        spec_tick(m, dt, inp).rings == m.rings,
        spec_tick(m, dt, inp).spawner == m.spawner,
        spec_tick(m, dt, inp).y_rotation == m.y_rotation,
{
    assert(forall|i: int| 0 <= i < m.rings.len() ==> ring_alive(#[trigger] m.rings[i]));
    lemma_despawn_all_alive(m.rings);
}

} // verus!
