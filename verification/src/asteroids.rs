//! The asteroid field: the spawner's state, the rings and their instances,
//! the per-frame scroll/steering integrator, the per-frame ring movement, and
//! the despawn sweep.  Spawning itself lives in [`spawn`].
//!
//! All quantities are fixed-point integers in thousandths of a unit; see
//! [`crate::units`].

use vstd::prelude::*;
use crate::gamestate::GameState;
use crate::rocket::RocketSpecs;
use crate::units::{abs_val, lemma_mul_le, DT_MAX, PARAM_CAP};

pub mod spawn;

verus! {

/// Forward gap between two border-wall pairs, in milliunits.
pub const BORDER_SPACING: i64 = 4_000;

/// Height above the track at which every instance sits, in milliunits.
pub const INSTANCE_HEIGHT: i64 = 1_000;

/// Random rotation-axis components are drawn in `[0, AXIS_BOUND)`.
pub const AXIS_BOUND: u64 = 1_000;

/// Random rotation angles are drawn in `[0, ANGLE_BOUND)` milliradians.
pub const ANGLE_BOUND: u64 = 3_140;

/// Random scales are drawn in `[SCALE_MIN, SCALE_MIN + SCALE_RANGE)`.
pub const SCALE_MIN: u64 = 750;

/// Width of the random scale window.
pub const SCALE_RANGE: u64 = 250;

/// Interior asteroids pick their shape from `[0, INTERIOR_SHAPES)`.
pub const INTERIOR_SHAPES: u64 = 2;

/// A ring holds `[0, COUNT_BOUND)` interior asteroids.
pub const COUNT_BOUND: u64 = 3;

/// The largest magnitude lateral field position can reach: the lateral bound
/// plus one frame's worth of travel.
pub const LATERAL_CAP: i64 = 20_000_000;

/// The largest forward counter accepted by the integrator; a machine limit,
/// far beyond any reachable travel distance.
pub const DIST_MAX: i64 = 9_000_000_000_000_000_000;

/// One asteroid: a shape variant, a position local to its ring, and a random
/// orientation and scale.  Immutable once spawned.
#[derive(Clone, Copy, PartialEq, Eq, Structural, Debug)]
pub struct Instance {
    pub shape: u8,
    pub x_offset: i64,
    pub z_offset: i64,
    pub axis_x: i64,
    pub axis_y: i64,
    pub angle: i64,
    pub scale: i64,
}

#[verifier::ext_equal]
pub ghost struct InstanceModel {
    pub shape: int,
    pub x_offset: int,
    pub z_offset: int,
    pub axis_x: int,
    pub axis_y: int,
    pub angle: int,
    pub scale: int,
}

impl View for Instance {
    type V = InstanceModel;

    open spec fn view(&self) -> InstanceModel {
        InstanceModel {
            shape: self.shape as int,
            x_offset: self.x_offset as int,
            z_offset: self.z_offset as int,
            axis_x: self.axis_x as int,
            axis_y: self.axis_y as int,
            angle: self.angle as int,
            scale: self.scale as int,
        }
    }
}

/// One spawned slice of the field: a lateral anchor shared by its interior
/// asteroids and its border wall.
pub struct Ring {
    pub x: i64,
    pub z: i64,
    pub asteroids: Vec<Instance>,
    pub border: Vec<Instance>,
}

#[verifier::ext_equal]
pub ghost struct RingModel {
    pub x: int,
    pub z: int,
    pub asteroids: Seq<InstanceModel>,
    pub border: Seq<InstanceModel>,
}

pub open spec fn insts_view(v: Seq<Instance>) -> Seq<InstanceModel> {
    v.map_values(|i: Instance| i.view())
}

impl View for Ring {
    type V = RingModel;

    open spec fn view(&self) -> RingModel {
        RingModel {
            x: self.x as int,
            z: self.z as int,
            asteroids: insts_view(self.asteroids.view()),
            border: insts_view(self.border.view()),
        }
    }
}

pub open spec fn rings_view(v: Seq<Ring>) -> Seq<RingModel> {
    v.map_values(|r: Ring| r.view())
}

/// The spawner's whole state: the spawn plane, the cadence bookkeeping, the
/// placement constraints, and the field's lateral position and velocity.
pub struct AsteroidSpawner {
    pub z_spawn_position: i64,
    pub last_z_position: i64,
    pub z_interval: i64,
    pub z_rand: i64,
    pub min_x_spacing: i64,
    pub z_velocity: i64,
    pub x_velocity: i64,
    pub x_translation: i64,
    pub max_x: i64,
    pub distance_traveled: i64,
}

#[verifier::ext_equal]
pub ghost struct SpawnerModel {
    pub z_spawn_position: int,
    pub last_z_position: int,
    pub z_interval: int,
    pub z_rand: int,
    pub min_x_spacing: int,
    pub z_velocity: int,
    pub x_velocity: int,
    pub x_translation: int,
    pub max_x: int,
    pub distance_traveled: int,
}

impl View for AsteroidSpawner {
    type V = SpawnerModel;

    open spec fn view(&self) -> SpawnerModel {
        SpawnerModel {
            z_spawn_position: self.z_spawn_position as int,
            last_z_position: self.last_z_position as int,
            z_interval: self.z_interval as int,
            z_rand: self.z_rand as int,
            min_x_spacing: self.min_x_spacing as int,
            z_velocity: self.z_velocity as int,
            x_velocity: self.x_velocity as int,
            x_translation: self.x_translation as int,
            max_x: self.max_x as int,
            distance_traveled: self.distance_traveled as int,
        }
    }
}

impl SpawnerModel {
    /// Configuration and state stay within the fixed-point caps.  The forward
    /// counters (`last_z_position`, `distance_traveled`) have no upper bound
    /// here; the integrator bounds them per call.
    pub open spec fn wf(self) -> bool {
        &&& -PARAM_CAP <= self.z_spawn_position <= 0
        &&& 0 <= self.z_interval <= PARAM_CAP
        &&& 0 <= self.z_rand <= PARAM_CAP
        &&& 0 <= self.min_x_spacing <= PARAM_CAP
        &&& 1 <= self.max_x <= PARAM_CAP
        &&& 0 <= self.z_velocity <= PARAM_CAP
        &&& -PARAM_CAP <= self.x_velocity <= PARAM_CAP
        &&& -LATERAL_CAP <= self.x_translation <= LATERAL_CAP
        &&& -PARAM_CAP <= self.last_z_position
        &&& 0 <= self.distance_traveled
    }

    /// The configuration half of the state: what a ring's well-formedness
    /// depends on, and what no per-frame system ever changes.
    pub open spec fn same_config(self, other: Self) -> bool {
        &&& self.z_spawn_position == other.z_spawn_position
        &&& self.z_interval == other.z_interval
        &&& self.z_rand == other.z_rand
        &&& self.min_x_spacing == other.min_x_spacing
        &&& self.z_velocity == other.z_velocity
        &&& self.max_x == other.max_x
    }
}

pub open spec fn instance_common_wf(i: InstanceModel) -> bool {
    &&& 0 <= i.axis_x < AXIS_BOUND
    &&& 0 <= i.axis_y < AXIS_BOUND
    &&& 0 <= i.angle < ANGLE_BOUND
    &&& SCALE_MIN <= i.scale < SCALE_MIN + SCALE_RANGE
    &&& 0 <= i.z_offset
}

pub open spec fn interior_wf(i: InstanceModel, sp: SpawnerModel) -> bool {
    &&& instance_common_wf(i)
    &&& 0 <= i.shape < INTERIOR_SHAPES
    &&& -sp.max_x <= i.x_offset < sp.max_x
    &&& i.z_offset < sp.z_rand || i.z_offset == 0
}

pub open spec fn border_inst_wf(i: InstanceModel, sp: SpawnerModel) -> bool {
    &&& instance_common_wf(i)
    &&& 0 <= i.shape < 3
    &&& i.x_offset == sp.max_x || i.x_offset == -sp.max_x
    &&& i.z_offset <= sp.z_interval
}

/// Every pair of distinct instances keeps the minimum lateral spacing.
pub open spec fn spaced(asts: Seq<InstanceModel>, spacing: int) -> bool {
    forall|i: int, j: int|
        0 <= i < asts.len() && 0 <= j < asts.len() && i != j ==> abs_val(
            #[trigger] asts[i].x_offset - #[trigger] asts[j].x_offset,
        ) >= spacing
}

pub open spec fn ring_wf(r: RingModel, sp: SpawnerModel) -> bool {
    &&& -PARAM_CAP <= r.z <= 0
    &&& -LATERAL_CAP <= r.x <= LATERAL_CAP
    &&& forall|i: int| 0 <= i < r.asteroids.len() ==> interior_wf(#[trigger] r.asteroids[i], sp)
    &&& forall|i: int| 0 <= i < r.border.len() ==> border_inst_wf(#[trigger] r.border[i], sp)
    &&& spaced(r.asteroids, sp.min_x_spacing)
}

// ---------------------------------------------------------------------------
// Scroll/steering integrator
// ---------------------------------------------------------------------------

pub open spec fn clamp_spec(x: int, lo: int, hi: int) -> int {
    if x < lo {
        lo
    } else if x > hi {
        hi
    } else {
        x
    }
}

/// `v * dt / 1000`, rounded toward zero, for `dt >= 0`.
pub open spec fn scaled(v: int, dt: int) -> int {
    if v >= 0 {
        v * dt / 1000
    } else {
        -((-v) * dt / 1000)
    }
}

/// One frame's velocity change before clamping: steering accelerates toward
/// the steered side unless the field already sits at or past the lateral
/// bound on that side; with no input the velocity decays toward zero, and a
/// decay step that would overshoot snaps the velocity to zero instead.
/// Returns the velocity to start from and the change to add to it.
pub open spec fn spec_velocity_delta(
    sp: SpawnerModel,
    specs: RocketSpecs,
    dt: int,
    left: bool,
    right: bool,
) -> (int, int) {
    let dv0 = (dt * specs.steering_speed as int / 1000) * specs.max_x_velocity as int
        / specs.max_steering_angle as int;
    if left {
        if sp.x_translation >= sp.max_x {
            (sp.x_velocity, 0)
        } else {
            (sp.x_velocity, dv0)
        }
    } else if right {
        if sp.x_translation <= -sp.max_x {
            (sp.x_velocity, 0)
        } else {
            (sp.x_velocity, -dv0)
        }
    } else {
        if dv0 > abs_val(sp.x_velocity) {
            (0, 0)
        } else if sp.x_velocity < 0 {
            (sp.x_velocity, dv0)
        } else if sp.x_velocity > 0 {
            (sp.x_velocity, -dv0)
        } else {
            (sp.x_velocity, dv0)
        }
    }
}

/// The spawner after one frame of the scroll/steering integrator: the
/// velocity change is applied and clamped to the velocity bound, the lateral
/// position is clamped to the lateral bound *before* the velocity is applied,
/// and the forward counters advance by one frame of scroll.
pub open spec fn spec_integrate(
    sp: SpawnerModel,
    specs: RocketSpecs,
    dt: int,
    left: bool,
    right: bool,
) -> SpawnerModel {
    let vd = spec_velocity_delta(sp, specs, dt, left, right);
    let v1 = clamp_spec(
        vd.0 + vd.1,
        -(specs.max_x_velocity as int),
        specs.max_x_velocity as int,
    );
    let x1 = clamp_spec(sp.x_translation, -sp.max_x, sp.max_x) + scaled(v1, dt);
    let step = sp.z_velocity * dt / 1000;
    SpawnerModel {
        x_velocity: v1,
        x_translation: x1,
        last_z_position: sp.last_z_position + step,
        distance_traveled: sp.distance_traveled + step,
        ..sp
    }
}

pub fn clamp(input: i64, min: i64, max: i64) -> (r: i64)
    ensures
        r as int == clamp_spec(input as int, min as int, max as int),
{
    if input < min {
        min
    } else if input > max {
        max
    } else {
        input
    }
}

/// Runs the integrator for one frame while the game is `Playing`; outside
/// `Playing` the spawner is left untouched.
pub fn asteroid_spawner_movement(
    spawner: &mut AsteroidSpawner,
    specs: &RocketSpecs,
    gs: GameState,
    dt: u64,
    left: bool,
    right: bool,
)
    requires
        old(spawner).view().wf(),
        specs.wf(),
        dt <= DT_MAX,
        old(spawner).view().last_z_position <= DIST_MAX as int,
        old(spawner).view().distance_traveled <= DIST_MAX as int,
    ensures
        final(spawner).view() == if gs is Playing {
            spec_integrate(old(spawner).view(), *specs, dt as int, left, right)
        } else {
            old(spawner).view()
        },
        final(spawner).view().wf(),
{
    match gs {
        GameState::Playing => {}
        _ => {
            return ;
        }
    }
    proof {
        lemma_mul_le(dt as int, specs.steering_speed as int, DT_MAX as int, PARAM_CAP as int);
    }
    let a: i64 = (dt as i64) * specs.steering_speed / 1000;
    proof {
        lemma_mul_le(a as int, specs.max_x_velocity as int, 10_000_000, PARAM_CAP as int);
    }
    let dv0: i64 = a * specs.max_x_velocity / specs.max_steering_angle;
    let v0 = spawner.x_velocity;
    let mut v: i64 = v0;
    let mut dv: i64 = dv0;
    if left {
        if spawner.x_translation >= spawner.max_x {
            dv = 0;
        }
    } else if right {
        if spawner.x_translation <= -spawner.max_x {
            dv = 0;
        } else {
            dv = -dv0;
        }
    } else {
        let mag: i64 = if v0 >= 0 {
            v0
        } else {
            -v0
        };
        if dv0 > mag {
            v = 0;
            dv = 0;
        } else if v0 < 0 {
            dv = dv0;
        } else if v0 > 0 {
            dv = -dv0;
        }
    }
    let v1 = clamp(v + dv, -specs.max_x_velocity, specs.max_x_velocity);
    let xc = clamp(spawner.x_translation, -spawner.max_x, spawner.max_x);
    let mag_v: i64 = if v1 >= 0 {
        v1
    } else {
        -v1
    };
    proof {
        lemma_mul_le(mag_v as int, dt as int, PARAM_CAP as int, DT_MAX as int);
        lemma_mul_le(spawner.z_velocity as int, dt as int, PARAM_CAP as int, DT_MAX as int);
    }
    let sd: i64 = mag_v * (dt as i64) / 1000;
    let x1: i64 = if v1 >= 0 {
        xc + sd
    } else {
        xc - sd
    };
    let step: i64 = spawner.z_velocity * (dt as i64) / 1000;
    spawner.x_velocity = v1;
    spawner.x_translation = x1;
    spawner.last_z_position = spawner.last_z_position + step;
    spawner.distance_traveled = spawner.distance_traveled + step;
}

// ---------------------------------------------------------------------------
// Ring movement
// ---------------------------------------------------------------------------

/// Every ring after one frame of movement: it scrolls forward by `step` and
/// its lateral anchor is overwritten with the field's lateral position, so
/// rings move laterally as a rigid group.
pub open spec fn spec_move_rings(rings: Seq<RingModel>, x: int, step: int) -> Seq<RingModel> {
    rings.map_values(
        |r: RingModel|
            RingModel { x: x, z: r.z + step, asteroids: r.asteroids, border: r.border },
    )
}

/// Moves every ring for one frame while the game is `Playing`; outside
/// `Playing` the field is frozen and nothing moves.
pub fn asteroid_movement(rings: &mut Vec<Ring>, spawner: &AsteroidSpawner, gs: GameState, dt: u64)
    requires
        spawner.view().wf(),
        dt <= DT_MAX,
        forall|i: int|
            0 <= i < old(rings).view().len() ==> -PARAM_CAP
                <= (#[trigger] old(rings).view()[i]).z <= 0,
    ensures
        rings_view(final(rings).view()) == if gs is Playing {
            spec_move_rings(
                rings_view(old(rings).view()),
                spawner.view().x_translation,
                spawner.view().z_velocity * dt / 1000,
            )
        } else {
            rings_view(old(rings).view())
        },
{
    match gs {
        GameState::Playing => {}
        _ => {
            return ;
        }
    }
    proof {
        lemma_mul_le(spawner.z_velocity as int, dt as int, PARAM_CAP as int, DT_MAX as int);
    }
    let step: i64 = spawner.z_velocity * (dt as i64) / 1000;
    let ghost orig = rings.view();
    let mut moved: Vec<Ring> = Vec::new();
    proof {
        assert(orig.subrange(0, orig.len() as int) =~= orig);
        assert(rings_view(moved.view()) =~~= spec_move_rings(
            rings_view(orig.subrange(0, 0)),
            spawner.view().x_translation,
            step as int,
        ));
    }
    while rings.len() > 0
        invariant
            rings.view().len() <= orig.len(),
            moved.view().len() + rings.view().len() == orig.len(),
            rings.view() == orig.subrange(moved.view().len() as int, orig.len() as int),
            forall|i: int| 0 <= i < orig.len() ==> -PARAM_CAP <= (#[trigger] orig[i]).z <= 0,
            step as int == spawner.view().z_velocity * dt / 1000,
            0 <= step <= 10_000_000,
            rings_view(moved.view()) == spec_move_rings(
                rings_view(orig.subrange(0, moved.view().len() as int)),
                spawner.view().x_translation,
                step as int,
            ),
        decreases rings.view().len(),
    {
        let ghost done = moved.view().len() as int;
        let r = rings.remove(0);
        assert(r == orig[done]);
        let moved_ring = Ring {
            x: spawner.x_translation,
            z: r.z + step,
            asteroids: r.asteroids,
            border: r.border,
        };
        let ghost m_old = moved.view();
        moved.push(moved_ring);
        proof {
            let lhs = rings_view(moved.view());
            let rhs = spec_move_rings(
                rings_view(orig.subrange(0, done + 1)),
                spawner.view().x_translation,
                step as int,
            );
            assert(lhs.len() == done + 1);
            assert(rhs.len() == done + 1);
            assert forall|t: int| 0 <= t < done + 1 implies lhs[t] == rhs[t] by {
                assert(orig.subrange(0, done + 1)[t] == orig[t]);
                if t < done {
                    assert(moved.view()[t] == m_old[t]);
                    assert(lhs[t] == rings_view(m_old)[t]);
                    assert(rings_view(m_old)[t] == spec_move_rings(
                        rings_view(orig.subrange(0, done)),
                        spawner.view().x_translation,
                        step as int,
                    )[t]);
                    assert(orig.subrange(0, done)[t] == orig[t]);
                } else {
                    assert(moved.view()[done] == moved_ring);
                    assert(lhs[done] =~~= rhs[done]);
                }
            }
            assert(lhs =~= rhs);
            assert(rings.view() =~= orig.subrange(done + 1, orig.len() as int));
        }
    }
    proof {
        assert(orig.subrange(0, orig.len() as int) =~= orig);
    }
    core::mem::swap(rings, &mut moved);
}

// ---------------------------------------------------------------------------
// Despawn sweep
// ---------------------------------------------------------------------------

/// A ring stays while its forward coordinate has not passed the camera plane.
pub open spec fn ring_alive(r: RingModel) -> bool {
    r.z <= 0
}

/// The rings that survive the sweep, in their original order.
pub open spec fn spec_despawn(rings: Seq<RingModel>) -> Seq<RingModel>
    decreases rings.len(),
{
    if rings.len() == 0 {
        Seq::empty()
    } else {
        let rest = spec_despawn(rings.drop_last());
        if ring_alive(rings.last()) {
            rest.push(rings.last())
        } else {
            rest
        }
    }
}

/// Removes every ring whose forward coordinate has passed the camera plane.
/// Runs every frame, in any game state; order-independent and idempotent.
pub fn despawn_asteroids(rings: &mut Vec<Ring>)
    ensures
        rings_view(final(rings).view()) == spec_despawn(rings_view(old(rings).view())),
{
    let ghost orig = rings.view();
    let mut kept: Vec<Ring> = Vec::new();
    proof {
        assert(orig.subrange(0, orig.len() as int) =~= orig);
        assert(rings_view(orig.subrange(0, 0)) =~= Seq::<RingModel>::empty());
    }
    while rings.len() > 0
        invariant
            rings.view().len() <= orig.len(),
            rings.view() == orig.subrange(
                orig.len() - rings.view().len(),
                orig.len() as int,
            ),
            rings_view(kept.view()) == spec_despawn(
                rings_view(orig.subrange(0, orig.len() - rings.view().len())),
            ),
        decreases rings.view().len(),
    {
        let ghost done = orig.len() - rings.view().len();
        let r = rings.remove(0);
        assert(r == orig[done]);
        let alive = r.z <= 0;
        if alive {
            kept.push(r);
        }
        proof {
            assert(rings_view(orig.subrange(0, done + 1)).drop_last() =~= rings_view(
                orig.subrange(0, done),
            ));
            assert(rings_view(orig.subrange(0, done + 1)).last() == orig[done].view());
            assert(rings_view(kept.view()) =~= spec_despawn(
                rings_view(orig.subrange(0, done + 1)),
            ));
            assert(rings.view() =~= orig.subrange(done + 1, orig.len() as int));
        }
    }
    proof {
        assert(orig.subrange(0, orig.len() as int) =~= orig);
    }
    core::mem::swap(rings, &mut kept);
}

/// How many rings of `s` are still alive.
pub open spec fn alive_count(s: Seq<RingModel>) -> int
    decreases s.len(),
{
    if s.len() == 0 {
        0
    } else {
        alive_count(s.drop_last()) + if ring_alive(s.last()) {
            1int
        } else {
            0int
        }
    }
}

/// The sweep keeps exactly the rings that have not passed the camera: every
/// survivor is alive and came from the input, every alive ring survives, and
/// the survivor count is the alive count, so each ring that crossed the
/// camera is removed exactly once and no ring is removed early.
pub proof fn lemma_despawn_exact(s: Seq<RingModel>)
    ensures
        spec_despawn(s).len() == alive_count(s),
        0 <= alive_count(s) <= s.len(),
        forall|t: int|
            0 <= t < spec_despawn(s).len() ==> ring_alive(#[trigger] spec_despawn(s)[t])
                && s.contains(spec_despawn(s)[t]),
        forall|i: int| 0 <= i < s.len() && ring_alive(#[trigger] s[i]) ==> spec_despawn(
            s,
        ).contains(s[i]),
    decreases s.len(),
{
    if s.len() > 0 {
        lemma_despawn_exact(s.drop_last());
        let rest = spec_despawn(s.drop_last());
        assert forall|t: int|
            0 <= t < spec_despawn(s).len() implies ring_alive(#[trigger] spec_despawn(s)[t])
            && s.contains(spec_despawn(s)[t]) by {
            if t < rest.len() {
                assert(spec_despawn(s)[t] == rest[t]);
                let w = choose|w: int|
                    0 <= w < s.drop_last().len() && s.drop_last()[w] == rest[t];
                assert(s[w] == rest[t]);
            } else {
                assert(spec_despawn(s)[t] == s.last());
                assert(s[s.len() - 1] == s.last());
            }
        }
        assert forall|i: int|
            0 <= i < s.len() && ring_alive(#[trigger] s[i]) implies spec_despawn(s).contains(
            s[i],
        ) by {
            if i < s.len() - 1 {
                assert(s.drop_last()[i] == s[i]);
                assert(rest.contains(s[i]));
                let w = choose|w: int| 0 <= w < rest.len() && rest[w] == s[i];
                assert(spec_despawn(s)[w] == s[i]);
            } else {
                assert(spec_despawn(s)[spec_despawn(s).len() - 1] == s.last());
            }
        }
    }
}

/// A sweep over a field whose rings are all still alive changes nothing.
pub proof fn lemma_despawn_all_alive(s: Seq<RingModel>)
    requires
        forall|i: int| 0 <= i < s.len() ==> ring_alive(#[trigger] s[i]),
    ensures
        spec_despawn(s) == s,
    decreases s.len(),
{
    if s.len() > 0 {
        assert(forall|i: int| 0 <= i < s.drop_last().len() ==> ring_alive(
            #[trigger] s.drop_last()[i],
        ));
        lemma_despawn_all_alive(s.drop_last());
        assert(ring_alive(s[s.len() - 1]));
        assert(spec_despawn(s) =~= s);
    }
}

/// The sweep is idempotent: sweeping a swept field changes nothing.
pub proof fn lemma_despawn_idempotent(s: Seq<RingModel>)
    ensures
        spec_despawn(spec_despawn(s)) == spec_despawn(s),
{
    lemma_despawn_exact(s);
    lemma_despawn_all_alive(spec_despawn(s));
}

} // verus!
