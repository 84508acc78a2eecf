//! Properties that relate the solvers and the integrator.
use vstd::prelude::*;
use crate::fixed::{root, sat, sub_spec, mul_spec, lemma_root_unique, SCALE, LIMIT};
use crate::geom::{Ray, Vec3, vec3, v_len, v_sub, v_unit, sq_len, worst_result, blank_material, FAR_AWAY};
use crate::objects::{March, Trace, Sphere, sphere_sdf};
use crate::shade::{Lobe, child_budget_spec};
use crate::solver::{
    Scene, cast_result, march_result, march_from, trace_result, field, field_normal, EPSILON,
    MAX_STEPS,
};

verus! {

/// A ray that hits nothing comes back as the sky sentinel, so the integrator
/// returns the sky's emitted light whatever its budgets.
pub proof fn miss_is_sky<M: March, T: Trace>(scene: &Scene<M, T>, ray: Ray)
    requires
        !cast_result(scene, ray).hit,
    ensures
        cast_result(scene, ray) == worst_result(ray.direction),
{
}

/// When both solvers hit and the analytic hit is no further than the marched
/// one, the dispatcher returns the analytic hit; in particular on equal
/// distances.
pub proof fn trace_wins_ties<M: March, T: Trace>(scene: &Scene<M, T>, ray: Ray)
    requires
        march_result(scene.march@, ray).hit,
        trace_result(scene.trace@, ray).hit,
        trace_result(scene.trace@, ray).distance <= march_result(scene.march@, ray).distance,
    ensures
        cast_result(scene, ray) == trace_result(scene.trace@, ray),
{
}

proof fn lemma_root_of_square(k: int)
    requires
        k >= 0,
    ensures
        root(k * k) == k,
{
    assert(k * k < (k + 1) * (k + 1)) by (nonlinear_arith)
        requires k >= 0;
    lemma_root_unique(k * k, k);
}

/// Distance field of one sphere at `p`.
proof fn lemma_single_field(s: Sphere, p: Vec3)
    ensures
        field(seq![s], p) == (sphere_sdf(s, p), s.material),
{
    let objs = seq![s];
    assert(objs.drop_last() =~= Seq::<Sphere>::empty());
    assert(field(Seq::<Sphere>::empty(), p) == (FAR_AWAY, blank_material()));
    assert(objs.last() == s);
}

/// The field of a sphere at the origin is even in `x` and in `y`.
proof fn lemma_axis_symmetry(s: Sphere, a: int, z: int)
    requires
        s.center == vec3(0, 0, 0),
        -LIMIT <= a <= LIMIT,
        -LIMIT <= z <= LIMIT,
    ensures
        field(seq![s], vec3(a, 0, z)) == field(seq![s], vec3(-a, 0, z)),
        field(seq![s], vec3(0, a, z)) == field(seq![s], vec3(0, -a, z)),
{
    lemma_single_field(s, vec3(a, 0, z));
    lemma_single_field(s, vec3(-a, 0, z));
    lemma_single_field(s, vec3(0, a, z));
    lemma_single_field(s, vec3(0, -a, z));
    assert(v_sub(vec3(a, 0, z), s.center) == vec3(a, 0, z));
    assert(v_sub(vec3(-a, 0, z), s.center) == vec3(-a, 0, z));
    assert(v_sub(vec3(0, a, z), s.center) == vec3(0, a, z));
    assert(v_sub(vec3(0, -a, z), s.center) == vec3(0, -a, z));
    assert(a * a == (-a) * (-a)) by (nonlinear_arith);
}

/// On the `z` axis the field of a sphere at the origin is `|z| - r`.
proof fn lemma_axis_value(s: Sphere, z: int)
    requires
        s.center == vec3(0, 0, 0),
        0 <= s.radius <= LIMIT,
        -LIMIT <= z <= LIMIT,
    ensures
        field(seq![s], vec3(0, 0, z)).0 == (if z >= 0 { z } else { -z }) - s.radius,
        field(seq![s], vec3(0, 0, z)).1 == s.material,
{
    lemma_single_field(s, vec3(0, 0, z));
    assert(v_sub(vec3(0, 0, z), s.center) == vec3(0, 0, z));
    let k = if z >= 0 { z } else { -z };
    assert(z * z == k * k) by (nonlinear_arith)
        requires k == z || k == -z;
    assert(sat(0) == 0 && sat(z) == z);
    assert(sq_len(vec3(0, 0, z)) == 0 * 0 + 0 * 0 + z * z);
    assert(sq_len(vec3(0, 0, z)) == k * k);
    lemma_root_of_square(k);
}

/// The estimated normal on the positive `z` axis points along `+z`.
proof fn lemma_axis_normal(s: Sphere, z: int)
    requires
        s.center == vec3(0, 0, 0),
        0 <= s.radius <= LIMIT,
        0 < z <= LIMIT - EPSILON,
    ensures
        field_normal(seq![s], vec3(0, 0, z)) == vec3(0, 0, SCALE as int),
{
    let objs = seq![s];
    let e = EPSILON as int;
    let p = vec3(0, 0, z);
    lemma_axis_symmetry(s, e, z);
    lemma_axis_value(s, z + e);
    lemma_axis_value(s, z - e);
    let k = sub_spec(field(objs, vec3(0, 0, z + e)).0 as int, field(objs, vec3(0, 0, z - e)).0 as int);
    assert(k > 0);
    assert(k <= LIMIT);
    assert(sat(0) == 0 && sat(k) == k);
    assert(sq_len(vec3(0, 0, k)) == 0 * 0 + 0 * 0 + k * k);
    lemma_root_of_square(k);
    assert(v_len(vec3(0, 0, k)) == k);
    assert(0 * SCALE / k == 0);
    assert(k * SCALE / k == SCALE) by (nonlinear_arith)
        requires k > 0;
    assert(field_normal(objs, p) == v_unit(vec3(0, 0, k)));
}

/// The ray from `(0, 0, d)` along `-z`, aimed at the origin.
pub open spec fn ray_down_from(d: int) -> Ray {
    Ray { origin: vec3(0, 0, d), direction: vec3(0, 0, -SCALE) }
}

/// Sphere marching converges on a sphere of radius `r` centred at the origin:
/// a ray from distance `d > r` aimed at the centre along the `z` axis hits
/// it within `EPSILON` of `d - r`, with the outward normal `(0, 0, 1)` of the
/// point hit.
pub proof fn march_converges_on_axis(s: Sphere, d: int)
    requires
        s.center == vec3(0, 0, 0),
        1 <= s.radius < d,
        d <= LIMIT - EPSILON,
    ensures
        march_result(seq![s], ray_down_from(d)).hit,
        -EPSILON <= march_result(seq![s], ray_down_from(d)).distance - (d - s.radius) <= EPSILON,
        march_result(seq![s], ray_down_from(d)).normal == vec3(0, 0, SCALE as int),
        march_result(seq![s], ray_down_from(d)).material == s.material,
{
    let objs = seq![s];
    let ray = ray_down_from(d);
    let r = s.radius as int;
    assert(mul_spec(0, 0) == 0 && mul_spec(-SCALE, 0) == 0);
    assert(crate::geom::ray_at(ray, 0) == vec3(0, 0, d));
    lemma_axis_value(s, d);
    if d - r <= EPSILON {
        lemma_axis_normal(s, d);
        assert(march_result(objs, ray) == march_from(objs, ray, 0, MAX_STEPS as nat));
    } else {
        let t = d - r;
        assert(march_from(objs, ray, 0, MAX_STEPS as nat) == march_from(objs, ray, t, (MAX_STEPS - 1) as nat));
        assert((-SCALE * t) / (SCALE as int) == -t);
        assert(crate::fixed::add_spec(0, t) == t);
        assert(mul_spec(-SCALE, t) == -t);
        assert(crate::geom::ray_at(ray, t) == vec3(0, 0, r));
        lemma_axis_value(s, r);
        lemma_axis_normal(s, r);
        assert(march_from(objs, ray, t, (MAX_STEPS - 1) as nat).hit);
    }
}

/// Budget after a chain of recursive rays leaving by `lobes`, in order.
pub open spec fn chain_budget(bounce: u32, samples: u32, lobes: Seq<Lobe>) -> (u32, u32)
    decreases lobes.len(),
{
    if lobes.len() == 0 {
        (bounce, samples)
    } else {
        let (b, s) = chain_budget(bounce, samples, lobes.drop_last());
        child_budget_spec(b, s, lobes.last())
    }
}

/// Along any chain of `k` recursive rays from budgets `(bounce, samples)`
/// the bounce budget has dropped by exactly `k` and the sample count never
/// grew; the integrator recurses only while the bounce budget is positive,
/// so no chain is longer than `bounce`.
pub proof fn budget_chain(bounce: u32, samples: u32, lobes: Seq<Lobe>)
    requires
        samples >= 1,
        lobes.len() <= bounce,
    ensures
        chain_budget(bounce, samples, lobes).0 == bounce - lobes.len(),
        1 <= chain_budget(bounce, samples, lobes).1 <= samples,
    decreases lobes.len(),
{
    if lobes.len() > 0 {
        budget_chain(bounce, samples, lobes.drop_last());
    }
}

} // verus!