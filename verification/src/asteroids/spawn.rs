//! Ring spawning.
//!
//! Before every individual random decision the generator is reseeded with a
//! counter that starts at a seed derived from the distance traveled, so a
//! ring is a function of that distance and of the spawner's configuration.
//! Interior asteroids are placed by rejection sampling: a candidate lateral
//! offset that comes within the minimum spacing of an already placed one is
//! redrawn under the next seed until one fits, up to a retry cap far beyond
//! anything a workable configuration can reach; at the cap the asteroid is
//! given up, so an impossible spacing cannot hang a frame.

use vstd::prelude::*;
use crate::asteroids::{
    AsteroidSpawner, Instance, InstanceModel, Ring, RingModel, SpawnerModel, border_inst_wf,
    insts_view, interior_wf, ring_wf, rings_view, spaced, ANGLE_BOUND, AXIS_BOUND, BORDER_SPACING,
    COUNT_BOUND, DIST_MAX, INTERIOR_SHAPES, SCALE_MIN, SCALE_RANGE,
};
use crate::gamestate::GameState;
use crate::rng::{draw, next_seed, seed_at, seeded_draw};
use crate::units::{abs_val, PARAM_CAP};

verus! {

/// The seed that anchors a ring's draws: the distance traveled, in
/// hundredths of a unit, rounded half up.
pub open spec fn seed_of(distance: int) -> u64 {
    ((distance + 5) / 10) as u64
}

pub open spec fn ints_of(v: Seq<i64>) -> Seq<int> {
    v.map_values(|x: i64| x as int)
}

pub open spec fn xs_of(v: Seq<InstanceModel>) -> Seq<int> {
    v.map_values(|i: InstanceModel| i.x_offset)
}

/// The candidate lateral offset drawn under the `k`-th seed: uniform in
/// `[-max_x, max_x)`.
pub open spec fn cand_at(base: u64, k: nat, sp: SpawnerModel) -> int {
    seeded_draw(seed_at(base, k), (2 * sp.max_x) as u64) as int - sp.max_x
}

/// `x` keeps the minimum spacing from every already placed offset.
pub open spec fn fits(x: int, placed: Seq<int>, spacing: int) -> bool {
    forall|i: int| 0 <= i < placed.len() ==> abs_val(#[trigger] placed[i] - x) >= spacing
}

/// The candidate drawn `j` seeds after seed `k` is the first that fits.
pub open spec fn accepted_at(
    base: u64,
    k: nat,
    j: nat,
    placed: Seq<int>,
    sp: SpawnerModel,
) -> bool {
    &&& fits(cand_at(base, (k + j) as nat, sp), placed, sp.min_x_spacing)
    &&& forall|jj: nat|
        jj < j ==> !fits(#[trigger] cand_at(base, (k + jj) as nat, sp), placed, sp.min_x_spacing)
}

/// How many candidates the sampler will draw for one offset before giving
/// the asteroid up.  Reaching the cap needs this many successive draws to
/// land within the spacing of an already placed offset; with any workable
/// configuration that is beyond reach, and with an impossible one (spacing
/// at least the whole lateral range) no candidate can ever fit.
pub const RETRY_CAP: u64 = 100_000;

/// Some candidate within the retry cap fits.
pub open spec fn placement_found(base: u64, k: nat, placed: Seq<int>, sp: SpawnerModel) -> bool {
    exists|j: nat| j < RETRY_CAP && accepted_at(base, k, j, placed, sp)
}

/// How many rejections the sampler makes starting at seed `k`.  Meaningful
/// only when `placement_found` holds; `accepted_at` pins it uniquely.
pub open spec fn accept_index(base: u64, k: nat, placed: Seq<int>, sp: SpawnerModel) -> nat {
    choose|j: nat| accepted_at(base, k, j, placed, sp)
}

/// At most one rejection count satisfies `accepted_at`.
pub proof fn lemma_accept_unique(
    base: u64,
    k: nat,
    j1: nat,
    j2: nat,
    placed: Seq<int>,
    sp: SpawnerModel,
)
    requires
        accepted_at(base, k, j1, placed, sp),
        accepted_at(base, k, j2, placed, sp),
    ensures
        j1 == j2,
{
    if j1 < j2 {
        assert(!fits(cand_at(base, (k + j1) as nat, sp), placed, sp.min_x_spacing));
    } else if j2 < j1 {
        assert(!fits(cand_at(base, (k + j2) as nat, sp), placed, sp.min_x_spacing));
    }
}

/// One interior asteroid: its draws in order (shape, forward jitter, lateral
/// offset with rejections, rotation axis, angle, scale) and the seed counter
/// left for the next decision.  When no candidate offset within the retry
/// cap fits, the asteroid is given up and nothing is placed.
pub open spec fn spec_interior(
    base: u64,
    k: nat,
    placed: Seq<int>,
    sp: SpawnerModel,
) -> (Option<InstanceModel>, nat) {
    let shape = seeded_draw(seed_at(base, k), INTERIOR_SHAPES) as int;
    let k1 = k + 1;
    let zoff = if sp.z_rand > 0 {
        seeded_draw(seed_at(base, k1), sp.z_rand as u64) as int
    } else {
        0
    };
    let k2 = if sp.z_rand > 0 {
        (k1 + 1) as nat
    } else {
        k1
    };
    if placement_found(base, k2, placed, sp) {
        let j = accept_index(base, k2, placed, sp);
        let xoff = cand_at(base, (k2 + j) as nat, sp);
        let k3 = (k2 + j + 1) as nat;
        let axis_x = seeded_draw(seed_at(base, k3), AXIS_BOUND) as int;
        let axis_y = seeded_draw(seed_at(base, (k3 + 1) as nat), AXIS_BOUND) as int;
        let angle = seeded_draw(seed_at(base, (k3 + 2) as nat), ANGLE_BOUND) as int;
        let scale = SCALE_MIN as int + seeded_draw(
            seed_at(base, (k3 + 3) as nat),
            SCALE_RANGE,
        ) as int;
        (
            Some(
                InstanceModel {
                    shape,
                    x_offset: xoff,
                    z_offset: zoff,
                    axis_x,
                    axis_y,
                    angle,
                    scale,
                },
            ),
            (k3 + 4) as nat,
        )
    } else {
        (None, (k2 + RETRY_CAP) as nat)
    }
}

/// The ring's `n` interior asteroids, placed one after the other, each
/// rejected against all of its predecessors.
pub open spec fn spec_interiors(
    base: u64,
    k: nat,
    placed: Seq<int>,
    n: nat,
    sp: SpawnerModel,
) -> (Seq<InstanceModel>, nat)
    decreases n,
{
    if n == 0 {
        (Seq::empty(), k)
    } else {
        let hd = spec_interior(base, k, placed, sp);
        match hd.0 {
            Some(m) => {
                let rest = spec_interiors(base, hd.1, placed.push(m.x_offset), (n - 1) as nat, sp);
                (seq![m] + rest.0, rest.1)
            },
            None => spec_interiors(base, hd.1, placed, (n - 1) as nat, sp),
        }
    }
}

/// One border-wall asteroid: pinned laterally, with its own random rotation
/// and scale.
pub open spec fn spec_border_inst(
    base: u64,
    k: nat,
    x: int,
    z: int,
    shape: int,
) -> (InstanceModel, nat) {
    let axis_x = seeded_draw(seed_at(base, k), AXIS_BOUND) as int;
    let axis_y = seeded_draw(seed_at(base, (k + 1) as nat), AXIS_BOUND) as int;
    let angle = seeded_draw(seed_at(base, (k + 2) as nat), ANGLE_BOUND) as int;
    let scale = SCALE_MIN as int + seeded_draw(seed_at(base, (k + 3) as nat), SCALE_RANGE) as int;
    (
        InstanceModel {
            shape,
            x_offset: x,
            z_offset: z,
            axis_x,
            axis_y,
            angle,
            scale,
        },
        (k + 4) as nat,
    )
}

/// The border wall from pair `idx` on: each pair is one asteroid pinned at
/// `-max_x` and one at `+max_x`, at forward offset `idx * BORDER_SPACING`.
pub open spec fn spec_borders(
    base: u64,
    k: nat,
    idx: nat,
    total: nat,
    shape: int,
    sp: SpawnerModel,
) -> (Seq<InstanceModel>, nat)
    decreases total - idx,
{
    if idx >= total {
        (Seq::empty(), k)
    } else {
        let z = idx * (BORDER_SPACING as int);
        let l = spec_border_inst(base, k, -sp.max_x, z, shape);
        let r = spec_border_inst(base, l.1, sp.max_x, z, shape);
        let rest = spec_borders(base, r.1, (idx + 1) as nat, total, shape, sp);
        (seq![l.0, r.0] + rest.0, rest.1)
    }
}

/// The ring spawned at the current spawner state: its interior asteroid
/// count is drawn under the base seed, the interiors follow, then the border
/// wall, whose shared shape variant is the pair count modulo three.
pub open spec fn spec_new_ring(sp: SpawnerModel) -> RingModel {
    let base = seed_of(sp.distance_traveled);
    let count = seeded_draw(seed_at(base, 0), COUNT_BOUND) as nat;
    let ir = spec_interiors(base, 1, Seq::empty(), count, sp);
    let pairs = sp.z_interval / (BORDER_SPACING as int);
    let br = spec_borders(base, ir.1, 0, pairs as nat, pairs % 3, sp);
    RingModel {
        x: sp.x_translation,
        z: sp.z_spawn_position,
        asteroids: ir.0,
        border: br.0,
    }
}

/// Enough forward scroll has accumulated since the last ring.
pub open spec fn spawn_due(sp: SpawnerModel) -> bool {
    sp.last_z_position >= sp.z_spawn_position + sp.z_interval
}

/// The spawn system's whole effect: while `Playing` and due, one new ring is
/// appended and the cadence counter is reset to the spawn plane; otherwise
/// nothing changes.
pub open spec fn spec_spawn(
    sp: SpawnerModel,
    rings: Seq<RingModel>,
    gs: GameState,
) -> (SpawnerModel, Seq<RingModel>) {
    if gs is Playing && spawn_due(sp) {
        (
            SpawnerModel { last_z_position: sp.z_spawn_position, ..sp },
            rings.push(spec_new_ring(sp)),
        )
    } else {
        (sp, rings)
    }
}

fn fits_exec(c: i64, placed: &Vec<i64>, spacing: i64) -> (r: bool)
    requires
        forall|i: int| 0 <= i < placed.view().len() ==> -PARAM_CAP <= #[trigger] placed.view()[i]
            <= PARAM_CAP,
        -PARAM_CAP <= c <= PARAM_CAP,
    ensures
        r == fits(c as int, ints_of(placed.view()), spacing as int),
{
    let mut i: usize = 0;
    while i < placed.len()
        invariant
            0 <= i <= placed.view().len(),
            forall|j: int|
                0 <= j < i ==> abs_val(#[trigger] ints_of(placed.view())[j] - c) >= spacing,
            forall|j: int| 0 <= j < placed.view().len() ==> -PARAM_CAP
                <= #[trigger] placed.view()[j] <= PARAM_CAP,
            -PARAM_CAP <= c <= PARAM_CAP,
        decreases placed.view().len() - i,
    {
        let p = placed[i];
        let d: i64 = if p >= c {
            p - c
        } else {
            c - p
        };
        if d < spacing {
            assert(abs_val(ints_of(placed.view())[i as int] - c) < spacing);
            return false;
        }
        i = i + 1;
    }
    true
}

/// Rejection-samples one lateral offset: draws candidates under successive
/// seeds until one keeps the spacing from everything in `placed`, giving the
/// asteroid up after the retry cap.  Returns the offset (if any), the next
/// seed, and the next seed counter.
fn place_offset(
    base: u64,
    seed0: u64,
    Ghost(k0): Ghost<nat>,
    placed: &Vec<i64>,
    max_x: i64,
    spacing: i64,
    Ghost(sp): Ghost<SpawnerModel>,
) -> (res: (Option<i64>, u64, Ghost<nat>))
    requires
        sp.wf(),
        max_x as int == sp.max_x,
        spacing as int == sp.min_x_spacing,
        seed0 == seed_at(base, k0),
        forall|i: int| 0 <= i < placed.view().len() ==> -PARAM_CAP <= #[trigger] placed.view()[i]
            <= PARAM_CAP,
    ensures
        placement_found(base, k0, ints_of(placed.view()), sp) ==> ({
            let j = accept_index(base, k0, ints_of(placed.view()), sp);
            &&& accepted_at(base, k0, j, ints_of(placed.view()), sp)
            &&& res.0 matches Some(x)
            &&& res.0->Some_0 as int == cand_at(base, (k0 + j) as nat, sp)
            &&& res.2@ == k0 + j + 1
            &&& -max_x <= res.0->Some_0 < max_x
            &&& fits(res.0->Some_0 as int, ints_of(placed.view()), sp.min_x_spacing)
        }),
        !placement_found(base, k0, ints_of(placed.view()), sp) ==> res.0 is None && res.2@ == k0
            + RETRY_CAP,
        res.1 == seed_at(base, res.2@),
{
    let two_mx: u64 = (2 * max_x) as u64;
    let mut seed: u64 = seed0;
    let mut attempt: u64 = 0;
    while attempt < RETRY_CAP
        invariant
            sp.wf(),
            max_x as int == sp.max_x,
            spacing as int == sp.min_x_spacing,
            two_mx == (2 * sp.max_x) as u64,
            attempt <= RETRY_CAP,
            seed == seed_at(base, (k0 + attempt) as nat),
            forall|i: int| 0 <= i < placed.view().len() ==> -PARAM_CAP
                <= #[trigger] placed.view()[i] <= PARAM_CAP,
            forall|jj: nat|
                jj < attempt ==> !fits(
                    #[trigger] cand_at(base, (k0 + jj) as nat, sp),
                    ints_of(placed.view()),
                    sp.min_x_spacing,
                ),
        decreases RETRY_CAP - attempt,
    {
        let c64 = draw(seed, two_mx);
        let cand: i64 = (c64 as i64) - max_x;
        proof {
            assert(cand as int == cand_at(base, (k0 + attempt) as nat, sp));
        }
        if fits_exec(cand, placed, spacing) {
            proof {
                assert(accepted_at(base, k0, attempt as nat, ints_of(placed.view()), sp));
                assert(placement_found(base, k0, ints_of(placed.view()), sp));
                let jc = accept_index(base, k0, ints_of(placed.view()), sp);
                assert(accepted_at(base, k0, jc, ints_of(placed.view()), sp));
                lemma_accept_unique(base, k0, attempt as nat, jc, ints_of(placed.view()), sp);
            }
            let seed1 = next_seed(seed);
            let ghost kf: nat = (k0 + attempt + 1) as nat;
            return (Some(cand), seed1, Ghost(kf));
        }
        seed = next_seed(seed);
        attempt = attempt + 1;
    }
    proof {
        assert forall|j: nat| j < RETRY_CAP implies !accepted_at(
            base,
            k0,
            j,
            ints_of(placed.view()),
            sp,
        ) by {
            assert(!fits(cand_at(base, (k0 + j) as nat, sp), ints_of(placed.view()), sp.min_x_spacing));
        }
        assert(!placement_found(base, k0, ints_of(placed.view()), sp));
    }
    (None, seed, Ghost((k0 + RETRY_CAP) as nat))
}

proof fn lemma_insts_view_push(v: Seq<Instance>, x: Instance)
    ensures
        insts_view(v.push(x)) == insts_view(v).push(x.view()),
{
    assert(insts_view(v.push(x)) =~= insts_view(v).push(x.view()));
}

proof fn lemma_ints_of_push(v: Seq<i64>, x: i64)
    ensures
        ints_of(v.push(x)) == ints_of(v).push(x as int),
{
    assert(ints_of(v.push(x)) =~= ints_of(v).push(x as int));
}

proof fn lemma_xs_of_push(v: Seq<InstanceModel>, m: InstanceModel)
    ensures
        xs_of(v.push(m)) == xs_of(v).push(m.x_offset),
{
    assert(xs_of(v.push(m)) =~= xs_of(v).push(m.x_offset));
}

/// Spawns one ring while the game is `Playing` and enough forward scroll has
/// accumulated since the last ring; otherwise does nothing.  The new ring is
/// appended to `rings` and the cadence counter is reset to the spawn plane.
pub fn spawn_asteroids(spawner: &mut AsteroidSpawner, rings: &mut Vec<Ring>, gs: GameState)
    requires
        old(spawner).view().wf(),
        old(spawner).view().distance_traveled <= DIST_MAX as int,
    ensures
        final(spawner).view() == spec_spawn(
            old(spawner).view(),
            rings_view(old(rings).view()),
            gs,
        ).0,
        rings_view(final(rings).view()) == spec_spawn(
            old(spawner).view(),
            rings_view(old(rings).view()),
            gs,
        ).1,
        final(spawner).view().wf(),
        final(spawner).view().same_config(old(spawner).view()),
        gs is Playing && spawn_due(old(spawner).view()) ==> ring_wf(
            spec_new_ring(old(spawner).view()),
            old(spawner).view(),
        ),
{
    match gs {
        GameState::Playing => {}
        _ => {
            return ;
        }
    }
    if spawner.last_z_position < spawner.z_spawn_position + spawner.z_interval {
        return ;
    }
    let ghost sp0 = spawner.view();
    let max_x = spawner.max_x;
    let min_sp = spawner.min_x_spacing;
    let z_rand = spawner.z_rand;

    let base: u64 = ((spawner.distance_traveled + 5) / 10) as u64;
    proof {
        assert(base == seed_of(sp0.distance_traveled));
        assert(seed_at(base, 0) == base);
    }
    let mut seed: u64 = base;
    let ghost mut k: nat = 0;

    let count: u64 = draw(seed, COUNT_BOUND);
    seed = next_seed(seed);
    proof {
        k = 1nat;
        assert(seed == seed_at(base, 1));
    }

    let mut asteroids: Vec<Instance> = Vec::new();
    let mut placed: Vec<i64> = Vec::new();
    let ghost full = spec_interiors(base, 1, Seq::empty(), count as nat, sp0);
    proof {
        assert(ints_of(placed.view()) =~= Seq::<int>::empty());
        assert(insts_view(asteroids.view()) =~= Seq::<InstanceModel>::empty());
        assert(xs_of(insts_view(asteroids.view())) =~= Seq::<int>::empty());
        assert(insts_view(asteroids.view()) + spec_interiors(
            base,
            k,
            ints_of(placed.view()),
            (count - 0) as nat,
            sp0,
        ).0 =~= full.0);
    }
    let mut i: u64 = 0;
    while i < count
        invariant
            sp0.wf(),
            count < COUNT_BOUND,
            i <= count,
            max_x as int == sp0.max_x,
            min_sp as int == sp0.min_x_spacing,
            z_rand as int == sp0.z_rand,
            seed == seed_at(base, k),
            full == spec_interiors(base, 1, Seq::empty(), count as nat, sp0),
            placed.view().len() == asteroids.view().len(),
            ints_of(placed.view()) == xs_of(insts_view(asteroids.view())),
            forall|t: int|
                0 <= t < placed.view().len() ==> -PARAM_CAP <= #[trigger] placed.view()[t]
                    <= PARAM_CAP,
            forall|t: int|
                0 <= t < asteroids.view().len() ==> interior_wf(
                    #[trigger] insts_view(asteroids.view())[t],
                    sp0,
                ),
            spaced(insts_view(asteroids.view()), sp0.min_x_spacing),
            full.0 == insts_view(asteroids.view()) + spec_interiors(
                base,
                k,
                ints_of(placed.view()),
                (count - i) as nat,
                sp0,
            ).0,
            full.1 == spec_interiors(
                base,
                k,
                ints_of(placed.view()),
                (count - i) as nat,
                sp0,
            ).1,
        decreases count - i,
    {
        let ghost k_start = k;
        let ghost pl = ints_of(placed.view());
        let ghost rem = spec_interiors(base, k_start, pl, (count - i) as nat, sp0);
        let ghost hd = spec_interior(base, k_start, pl, sp0);

        let shape_u: u64 = draw(seed, INTERIOR_SHAPES);
        seed = next_seed(seed);
        proof {
            k = (k + 1) as nat;
        }
        let zoff: i64;
        if z_rand > 0 {
            let zd = draw(seed, z_rand as u64);
            seed = next_seed(seed);
            proof {
                k = (k + 1) as nat;
            }
            zoff = zd as i64;
        } else {
            zoff = 0;
        }
        let po = place_offset(base, seed, Ghost(k), &placed, max_x, min_sp, Ghost(sp0));
        seed = po.1;
        proof {
            k = po.2@;
        }
        match po.0 {
            Some(x_off) => {
                let ax = draw(seed, AXIS_BOUND);
                seed = next_seed(seed);
                proof {
                    k = (k + 1) as nat;
                }
                let ay = draw(seed, AXIS_BOUND);
                seed = next_seed(seed);
                proof {
                    k = (k + 1) as nat;
                }
                let ang = draw(seed, ANGLE_BOUND);
                seed = next_seed(seed);
                proof {
                    k = (k + 1) as nat;
                }
                let sc = draw(seed, SCALE_RANGE);
                seed = next_seed(seed);
                proof {
                    k = (k + 1) as nat;
                }
                let inst = Instance {
                    shape: shape_u as u8,
                    x_offset: x_off,
                    z_offset: zoff,
                    axis_x: ax as i64,
                    axis_y: ay as i64,
                    angle: ang as i64,
                    scale: (SCALE_MIN + sc) as i64,
                };
                let ghost a_old = asteroids.view();
                let ghost p_old = placed.view();
                asteroids.push(inst);
                placed.push(x_off);
                i = i + 1;
                proof {
                    let m = inst.view();
                    assert(hd.0 == Some(m));
                    assert(hd.1 == k);
                    lemma_insts_view_push(a_old, inst);
                    lemma_ints_of_push(p_old, x_off);
                    lemma_xs_of_push(insts_view(a_old), m);
                    assert(ints_of(placed.view()) == xs_of(insts_view(asteroids.view())));
                    // the sequence correspondence advances by one instance
                    let rest = spec_interiors(base, hd.1, pl.push(m.x_offset), (count - i) as nat, sp0);
                    assert(rem.0 == seq![m] + rest.0);
                    assert(rem.1 == rest.1);
                    assert(insts_view(a_old) + (seq![m] + rest.0) =~= insts_view(
                        asteroids.view(),
                    ) + rest.0);
                    assert(pl.push(m.x_offset) == ints_of(placed.view()));
                    // spacing is kept: the new offset fits everything placed
                    assert forall|t1: int, t2: int|
                        0 <= t1 < insts_view(asteroids.view()).len() && 0 <= t2 < insts_view(
                            asteroids.view(),
                        ).len() && t1 != t2 implies abs_val(
                        insts_view(asteroids.view())[t1].x_offset - insts_view(
                            asteroids.view(),
                        )[t2].x_offset,
                    ) >= sp0.min_x_spacing by {
                        let av = insts_view(asteroids.view());
                        let n = av.len() - 1;
                        if t1 < n && t2 < n {
                            assert(av[t1] == insts_view(a_old)[t1]);
                            assert(av[t2] == insts_view(a_old)[t2]);
                        } else if t1 == n {
                            assert(av[t2] == insts_view(a_old)[t2]);
                            assert(pl[t2] == av[t2].x_offset);
                            assert(abs_val(pl[t2] - m.x_offset) >= sp0.min_x_spacing);
                        } else {
                            assert(av[t1] == insts_view(a_old)[t1]);
                            assert(pl[t1] == av[t1].x_offset);
                            assert(abs_val(pl[t1] - m.x_offset) >= sp0.min_x_spacing);
                        }
                    }
                }
            },
            None => {
                i = i + 1;
                proof {
                    assert(hd.0 is None);
                    assert(hd.1 == k);
                    assert(rem.0 == spec_interiors(base, k, pl, (count - i) as nat, sp0).0);
                    assert(rem.1 == spec_interiors(base, k, pl, (count - i) as nat, sp0).1);
                }
            },
        }
    }
    proof {
        assert(spec_interiors(base, k, ints_of(placed.view()), 0, sp0).0 =~= Seq::<
            InstanceModel,
        >::empty());
        assert(full.0 =~= insts_view(asteroids.view()));
        assert(full.1 == k);
    }

    let pairs: i64 = spawner.z_interval / BORDER_SPACING;
    let bshape_i: i64 = pairs % 3;
    let bshape: u8 = bshape_i as u8;
    let ghost k_b0 = k;
    let ghost bfull = spec_borders(base, k_b0, 0, pairs as nat, bshape as int, sp0);
    let mut border: Vec<Instance> = Vec::new();
    proof {
        assert(insts_view(border.view()) =~= Seq::<InstanceModel>::empty());
        assert(insts_view(border.view()) + spec_borders(
            base,
            k,
            0,
            pairs as nat,
            bshape as int,
            sp0,
        ).0 =~= bfull.0);
    }
    let mut bj: i64 = 0;
    while bj < pairs
        invariant
            sp0.wf(),
            0 <= bj <= pairs,
            0 <= pairs <= 250,
            pairs as int == sp0.z_interval / (BORDER_SPACING as int),
            bshape as int == pairs as int % 3,
            max_x as int == sp0.max_x,
            seed == seed_at(base, k),
            bfull == spec_borders(base, k_b0, 0, pairs as nat, bshape as int, sp0),
            forall|t: int|
                0 <= t < border.view().len() ==> border_inst_wf(
                    #[trigger] insts_view(border.view())[t],
                    sp0,
                ),
            bfull.0 == insts_view(border.view()) + spec_borders(
                base,
                k,
                bj as nat,
                pairs as nat,
                bshape as int,
                sp0,
            ).0,
            bfull.1 == spec_borders(
                base,
                k,
                bj as nat,
                pairs as nat,
                bshape as int,
                sp0,
            ).1,
        decreases pairs - bj,
    {
        let ghost k_start = k;
        let ghost brem = spec_borders(base, k_start, bj as nat, pairs as nat, bshape as int, sp0);
        let bz: i64 = bj * BORDER_SPACING;
        proof {
            vstd::arithmetic::div_mod::lemma_fundamental_div_mod(
                sp0.z_interval,
                BORDER_SPACING as int,
            );
        }
        let lax = draw(seed, AXIS_BOUND);
        seed = next_seed(seed);
        proof {
            k = (k + 1) as nat;
        }
        let lay = draw(seed, AXIS_BOUND);
        seed = next_seed(seed);
        proof {
            k = (k + 1) as nat;
        }
        let lang = draw(seed, ANGLE_BOUND);
        seed = next_seed(seed);
        proof {
            k = (k + 1) as nat;
        }
        let lsc = draw(seed, SCALE_RANGE);
        seed = next_seed(seed);
        proof {
            k = (k + 1) as nat;
        }
        let left = Instance {
            shape: bshape,
            x_offset: -max_x,
            z_offset: bz,
            axis_x: lax as i64,
            axis_y: lay as i64,
            angle: lang as i64,
            scale: (SCALE_MIN + lsc) as i64,
        };
        let rax = draw(seed, AXIS_BOUND);
        seed = next_seed(seed);
        proof {
            k = (k + 1) as nat;
        }
        let ray = draw(seed, AXIS_BOUND);
        seed = next_seed(seed);
        proof {
            k = (k + 1) as nat;
        }
        let rang = draw(seed, ANGLE_BOUND);
        seed = next_seed(seed);
        proof {
            k = (k + 1) as nat;
        }
        let rsc = draw(seed, SCALE_RANGE);
        seed = next_seed(seed);
        proof {
            k = (k + 1) as nat;
        }
        let right = Instance {
            shape: bshape,
            x_offset: max_x,
            z_offset: bz,
            axis_x: rax as i64,
            axis_y: ray as i64,
            angle: rang as i64,
            scale: (SCALE_MIN + rsc) as i64,
        };
        let ghost b_old = border.view();
        border.push(left);
        border.push(right);
        bj = bj + 1;
        proof {
            let lm = spec_border_inst(
                base,
                k_start,
                -sp0.max_x,
                (bj - 1) * (BORDER_SPACING as int),
                bshape as int,
            );
            let rm = spec_border_inst(
                base,
                lm.1,
                sp0.max_x,
                (bj - 1) * (BORDER_SPACING as int),
                bshape as int,
            );
            assert(left.view() == lm.0);
            assert(right.view() == rm.0);
            assert(rm.1 == k);
            let rest = spec_borders(base, k, bj as nat, pairs as nat, bshape as int, sp0);
            assert(brem.0 == seq![lm.0, rm.0] + rest.0);
            assert(brem.1 == rest.1);
            lemma_insts_view_push(b_old, left);
            lemma_insts_view_push(b_old.push(left), right);
            assert(insts_view(b_old) + (seq![lm.0, rm.0] + rest.0) =~= insts_view(
                border.view(),
            ) + rest.0);
        }
    }
    proof {
        assert(spec_borders(base, k, pairs as nat, pairs as nat, bshape as int, sp0).0 =~= Seq::<
            InstanceModel,
        >::empty());
        assert(bfull.0 =~= insts_view(border.view()));
    }

    let ring = Ring {
        x: spawner.x_translation,
        z: spawner.z_spawn_position,
        asteroids,
        border,
    };
    let ghost new_ring = ring.view();
    let ghost rings_old = rings.view();
    rings.push(ring);
    spawner.last_z_position = spawner.z_spawn_position;
    proof {
        assert(new_ring =~~= spec_new_ring(sp0));
        assert(rings_view(rings.view()) =~= rings_view(rings_old).push(new_ring));
        assert(spawner.view() =~~= SpawnerModel { last_z_position: sp0.z_spawn_position, ..sp0 });
        assert(ring_wf(new_ring, sp0));
    }
}

} // verus!
