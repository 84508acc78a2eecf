//! The shading integrator and its supporting optics.
use vstd::prelude::*;
use rand::Rng;
use crate::fixed::{
    fx_add, fx_sub, fx_mul, fx_div, fx_sqrt, max, sat, add_spec, sub_spec, mul_spec, div_spec,
    sqrt_spec, SCALE, LIMIT,
};
use crate::geom::{
    Vec3, Ray, Material, vec3, v_add, v_sub, v_scale, v_mul, v_div, v_dot, v_unit, sq_len, emitted, sky_material, ray_at,
};
use crate::objects::{March, Trace};
use crate::solver::{
    Scene, cast_ray, cast_result, diffuse_scene, valid_scene, plain_diffuse, valid_material, lemma_hit_material,
    EPSILON,
};

verus! {

/// Recursion depth of a primary ray.
pub const MAX_BOUNCES: u32 = 3;

/// Samples taken for a primary ray.
pub const SAMPLES: u32 = 16;

/// Draws before the ball sampler gives up.
pub const MAX_TRIES: u32 = 1000;

/// How far a secondary ray starts above the surface it leaves.
pub const SURFACE_BIAS: i64 = 4 * EPSILON;

/// Relies on rand's `Rng::gen_range` over `thread_rng`: a value in the
/// inclusive range `lo..=hi`, which must not be empty (it asserts so).
/// Nothing is claimed of which value; `thread_rng` itself only fails when
/// the operating system offers no entropy.
#[verifier::external_body]
fn random_between(lo: i64, hi: i64) -> (r: i64)
    requires
        lo <= hi,
    ensures
        lo <= r <= hi,
{
    rand::thread_rng().gen_range(lo..=hi)
}

/// The point lies strictly inside the ball of radius 1.0.
pub open spec fn in_unit_ball(v: Vec3) -> bool {
    -SCALE <= v.x <= SCALE && -SCALE <= v.y <= SCALE && -SCALE <= v.z <= SCALE
        && sq_len(v) < SCALE * SCALE
}

/// Rejection test of one draw from the cube `[-1.0, 1.0]^3`: the point is kept
/// when its squared length is below 1.0.
pub fn accept_point(x: i64, y: i64, z: i64) -> (r: Option<Vec3>)
    requires
        -SCALE <= x <= SCALE,
        -SCALE <= y <= SCALE,
        -SCALE <= z <= SCALE,
    ensures
        r == (if x * x + y * y + z * z < SCALE * SCALE { Some(Vec3 { x, y, z }) } else { None }),
        r matches Some(p) ==> in_unit_ball(p),
{
    assert(0 <= x * x <= SCALE * SCALE && 0 <= y * y <= SCALE * SCALE && 0 <= z * z <= SCALE * SCALE) by (nonlinear_arith)
        requires -SCALE <= x <= SCALE, -SCALE <= y <= SCALE, -SCALE <= z <= SCALE;
    assert(SCALE * SCALE == 1_000_000_000_000);
    if x * x + y * y + z * z < SCALE * SCALE {
        proof {
            crate::geom::lemma_sat_bounds(x as int);
            crate::geom::lemma_sat_bounds(y as int);
            crate::geom::lemma_sat_bounds(z as int);
        }
        Some(Vec3 { x, y, z })
    } else {
        None
    }
}

/// Uniform point inside the unit ball: the first draw from the cube that
/// `accept_point` keeps. `None` when all `MAX_TRIES` draws were rejected,
/// which only a broken random source does.
pub fn sample_sphere() -> (r: Option<Vec3>)
    ensures
        r matches Some(p) ==> in_unit_ball(p),
{
    let mut tries: u32 = 0;
    while tries < MAX_TRIES
        invariant
            tries <= MAX_TRIES,
        decreases MAX_TRIES - tries,
    {
        let x = random_between(-SCALE, SCALE);
        let y = random_between(-SCALE, SCALE);
        let z = random_between(-SCALE, SCALE);
        let p = accept_point(x, y, z);
        if p.is_some() {
            return p;
        }
        tries += 1;
    }
    None
}

/// Mirror image of `v` about the plane of normal `n`: `v - 2 (v·n) n`.
pub open spec fn reflect_spec(v: Vec3, n: Vec3) -> Vec3 {
    v_sub(v, v_scale(n, mul_spec(2 * SCALE, v_dot(v, n))))
}

pub fn reflect(v: Vec3, n: Vec3) -> (r: Vec3)
    ensures
        r == reflect_spec(v, n),
{
    v.sub(n.scale(fx_mul(2 * SCALE, v.dot(n))))
}

pub open spec fn pow5_spec(x: int) -> int {
    mul_spec(mul_spec(mul_spec(mul_spec(x, x), x), x), x)
}

/// Schlick's approximation: `r0 + (1 - r0)(1 - cosine)^5`, with
/// `r0 = ((1 - ri) / (1 + ri))^2`.
pub open spec fn fresnel_spec(cosine: int, ri: int) -> int {
    let q = div_spec(sub_spec(SCALE as int, ri), add_spec(SCALE as int, ri));
    let r0 = mul_spec(q, q);
    add_spec(r0, mul_spec(sub_spec(SCALE as int, r0), pow5_spec(sub_spec(SCALE as int, cosine))))
}

pub fn fresnel(cosine: i64, ri: i64) -> (r: i64)
    requires
        0 <= ri,
    ensures
        r == fresnel_spec(cosine as int, ri as int),
{
    let q = fx_div(fx_sub(SCALE, ri), fx_add(SCALE, ri));
    let r0 = fx_mul(q, q);
    let c = fx_sub(SCALE, cosine);
    let p = fx_mul(fx_mul(fx_mul(fx_mul(c, c), c), c), c);
    fx_add(r0, fx_mul(fx_sub(SCALE, r0), p))
}

/// Snell's law for the unit direction of `v` through a surface of normal `n`;
/// `None` on total internal reflection, when `1 - k^2 (1 - dt^2) <= 0`.
pub open spec fn refract_spec(v: Vec3, n: Vec3, k: int) -> Option<Vec3> {
    let uv = v_unit(v);
    let dt = v_dot(uv, n);
    let disc = sub_spec(SCALE as int, mul_spec(mul_spec(k, k), sub_spec(SCALE as int, mul_spec(dt, dt))));
    if disc > 0 {
        Some(v_sub(v_scale(v_sub(uv, v_scale(n, dt)), k), v_scale(n, sqrt_spec(disc))))
    } else {
        None
    }
}

pub fn refract(v: Vec3, n: Vec3, ni_over_nt: i64) -> (r: Option<Vec3>)
    ensures
        r == refract_spec(v, n, ni_over_nt as int),
{
    let uv = v.unit();
    let dt = uv.dot(n);
    let disc = fx_sub(SCALE, fx_mul(fx_mul(ni_over_nt, ni_over_nt), fx_sub(SCALE, fx_mul(dt, dt))));
    if disc > 0 {
        Some(uv.sub(n.scale(dt)).scale(ni_over_nt).sub(n.scale(fx_sqrt(disc))))
    } else {
        None
    }
}

/// The layered blend of the shading terms under material `m`.
pub open spec fn blend_spec(m: Material, diffuse: Vec3, specular: Vec3, transmission: Vec3) -> Vec3 {
    let one = SCALE as int;
    let base = v_add(v_scale(transmission, m.transmission as int), v_scale(diffuse, sub_spec(one, m.transmission as int)));
    let layered = v_add(base, v_scale(specular, m.specular as int));
    let dm = v_add(
        v_scale(layered, sub_spec(one, m.metallic as int)),
        v_scale(v_mul(specular, m.color), m.metallic as int),
    );
    let keep = if sub_spec(one, m.emission as int) >= 0 { sub_spec(one, m.emission as int) } else { 0 };
    v_add(v_scale(dm, keep), emitted(m))
}

pub fn blend(m: &Material, diffuse: Vec3, specular: Vec3, transmission: Vec3) -> (r: Vec3)
    ensures
        r == blend_spec(*m, diffuse, specular, transmission),
{
    let base = transmission.scale(m.transmission).add(diffuse.scale(fx_sub(SCALE, m.transmission)));
    let layered = base.add(specular.scale(m.specular));
    let dm = layered.scale(fx_sub(SCALE, m.metallic)).add(specular.mul(m.color).scale(m.metallic));
    dm.scale(max(fx_sub(SCALE, m.emission), 0)).add(m.emitted())
}

/// Each component lies in [0, 1.0], the radiance of the sky.
pub open spec fn within_sky(v: Vec3) -> bool {
    0 <= v.x <= SCALE && 0 <= v.y <= SCALE && 0 <= v.z <= SCALE
}

proof fn lemma_mul_identities(x: int)
    ensures
        mul_spec(x, 0) == 0,
        -LIMIT <= x <= LIMIT ==> mul_spec(x, SCALE as int) == x,
{
    assert(x * 0 == 0);
    assert((x * SCALE) / (SCALE as int) == x);
}

proof fn lemma_mul_bounded(c: int, s: int)
    requires
        0 <= c <= SCALE,
        0 <= s <= SCALE,
    ensures
        0 <= mul_spec(c, s) <= SCALE,
{
    assert(0 <= c * s <= SCALE * SCALE) by (nonlinear_arith)
        requires 0 <= c <= SCALE, 0 <= s <= SCALE;
    vstd::arithmetic::div_mod::lemma_div_is_ordered(c * s, SCALE * SCALE, SCALE as int);
    vstd::arithmetic::div_mod::lemma_div_is_ordered(0, c * s, SCALE as int);
    assert((SCALE * SCALE) / (SCALE as int) == SCALE);
}

proof fn lemma_average_bounded(x: int, n: int)
    requires
        n >= 1,
        0 <= x <= n * SCALE,
    ensures
        0 <= crate::fixed::div_count_spec(x, n) <= SCALE,
{
    vstd::arithmetic::div_mod::lemma_div_is_ordered(x, n * SCALE, n);
    vstd::arithmetic::div_mod::lemma_div_is_ordered(0, x, n);
    vstd::arithmetic::div_mod::lemma_div_multiples_vanish(SCALE as int, n);
}

proof fn lemma_mul_nonneg(a: int, b: int)
    requires
        a >= 0,
        b >= 0,
    ensures
        mul_spec(a, b) >= 0,
{
    assert(a * b >= 0) by (nonlinear_arith)
        requires a >= 0, b >= 0;
    vstd::arithmetic::div_mod::lemma_div_pos_is_pos(a * b, SCALE as int);
}

/// Sums, products and non-negative scalings keep vectors non-negative.
proof fn lemma_vec_nonneg(a: Vec3, b: Vec3, k: int)
    requires
        nonneg(a),
        nonneg(b),
        k >= 0,
    ensures
        nonneg(v_add(a, b)),
        nonneg(v_mul(a, b)),
        nonneg(v_scale(a, k)),
{
    lemma_mul_nonneg(a.x as int, b.x as int);
    lemma_mul_nonneg(a.y as int, b.y as int);
    lemma_mul_nonneg(a.z as int, b.z as int);
    lemma_mul_nonneg(a.x as int, k);
    lemma_mul_nonneg(a.y as int, k);
    lemma_mul_nonneg(a.z as int, k);
}

proof fn lemma_div_nonneg(v: Vec3, n: int)
    requires
        nonneg(v),
        n >= 1,
    ensures
        nonneg(v_div(v, n)),
{
    vstd::arithmetic::div_mod::lemma_div_pos_is_pos(v.x as int, n);
    vstd::arithmetic::div_mod::lemma_div_pos_is_pos(v.y as int, n);
    vstd::arithmetic::div_mod::lemma_div_pos_is_pos(v.z as int, n);
}

proof fn lemma_weighted_nonneg(c: Vec3, xs: Seq<Vec3>)
    requires
        nonneg(c),
        forall|i: int| 0 <= i < xs.len() ==> nonneg(#[trigger] xs[i]),
    ensures
        nonneg(weighted_sum(c, xs)),
    decreases xs.len(),
{
    if xs.len() > 0 {
        let rest = xs.drop_last();
        assert forall|i: int| 0 <= i < rest.len() implies nonneg(#[trigger] rest[i]) by {
            assert(rest[i] == xs[i]);
        }
        lemma_weighted_nonneg(c, rest);
        assert(nonneg(xs[xs.len() - 1]));
        lemma_vec_nonneg(c, xs.last(), 0);
        lemma_vec_nonneg(weighted_sum(c, rest), v_mul(c, xs.last()), 0);
    }
}

proof fn lemma_plain_nonneg(xs: Seq<Vec3>)
    requires
        forall|i: int| 0 <= i < xs.len() ==> nonneg(#[trigger] xs[i]),
    ensures
        nonneg(plain_sum(xs)),
    decreases xs.len(),
{
    if xs.len() > 0 {
        let rest = xs.drop_last();
        assert forall|i: int| 0 <= i < rest.len() implies nonneg(#[trigger] rest[i]) by {
            assert(rest[i] == xs[i]);
        }
        lemma_plain_nonneg(rest);
        assert(nonneg(xs[xs.len() - 1]));
        lemma_vec_nonneg(plain_sum(rest), xs.last(), 0);
    }
}

/// With weights in [0, 1.0] and samples within the sky's radiance, the sum
/// of `n` weighted samples lies within `[0, n]` per component.
proof fn lemma_weighted_bounded(c: Vec3, xs: Seq<Vec3>)
    requires
        within_sky(c),
        forall|i: int| 0 <= i < xs.len() ==> within_sky(#[trigger] xs[i]),
    ensures
        0 <= weighted_sum(c, xs).x <= xs.len() * SCALE,
        0 <= weighted_sum(c, xs).y <= xs.len() * SCALE,
        0 <= weighted_sum(c, xs).z <= xs.len() * SCALE,
    decreases xs.len(),
{
    if xs.len() > 0 {
        let rest = xs.drop_last();
        assert forall|i: int| 0 <= i < rest.len() implies within_sky(#[trigger] rest[i]) by {
            assert(rest[i] == xs[i]);
        }
        lemma_weighted_bounded(c, rest);
        let x = xs[xs.len() - 1];
        assert(within_sky(x));
        lemma_mul_bounded(c.x as int, x.x as int);
        lemma_mul_bounded(c.y as int, x.y as int);
        lemma_mul_bounded(c.z as int, x.z as int);
    }
}

/// Under valid materials and non-negative estimates the blend is non-negative.
proof fn lemma_blend_nonneg(m: Material, d: Vec3, s: Vec3)
    requires
        valid_material(m),
        nonneg(d),
        nonneg(s),
    ensures
        nonneg(blend_spec(m, d, s, vec3(0, 0, 0))),
{
    let one = SCALE as int;
    let z = vec3(0, 0, 0);
    lemma_vec_nonneg(z, z, m.transmission as int);
    lemma_vec_nonneg(d, d, sub_spec(one, m.transmission as int));
    let base = v_add(v_scale(z, m.transmission as int), v_scale(d, sub_spec(one, m.transmission as int)));
    lemma_vec_nonneg(v_scale(z, m.transmission as int), v_scale(d, sub_spec(one, m.transmission as int)), 0);
    lemma_vec_nonneg(s, m.color, m.specular as int);
    let layered = v_add(base, v_scale(s, m.specular as int));
    lemma_vec_nonneg(base, v_scale(s, m.specular as int), 0);
    lemma_vec_nonneg(layered, layered, sub_spec(one, m.metallic as int));
    lemma_vec_nonneg(v_mul(s, m.color), v_mul(s, m.color), m.metallic as int);
    let dm = v_add(
        v_scale(layered, sub_spec(one, m.metallic as int)),
        v_scale(v_mul(s, m.color), m.metallic as int),
    );
    lemma_vec_nonneg(v_scale(layered, sub_spec(one, m.metallic as int)), v_scale(v_mul(s, m.color), m.metallic as int), 0);
    let keep = if sub_spec(one, m.emission as int) >= 0 { sub_spec(one, m.emission as int) } else { 0 };
    lemma_vec_nonneg(dm, dm, keep);
    lemma_vec_nonneg(m.color, m.color, m.emission as int);
    lemma_vec_nonneg(v_scale(dm, keep), emitted(m), 0);
}

/// Under a plain diffuse material the blend passes the diffuse term through.
proof fn lemma_blend_diffuse(m: Material, d: Vec3, s: Vec3)
    requires
        plain_diffuse(m),
        within_sky(d),
    ensures
        blend_spec(m, d, s, vec3(0, 0, 0)) == d,
{
    lemma_mul_identities(0);
    lemma_mul_identities(d.x as int);
    lemma_mul_identities(d.y as int);
    lemma_mul_identities(d.z as int);
    lemma_mul_identities(s.x as int);
    lemma_mul_identities(s.y as int);
    lemma_mul_identities(s.z as int);
    lemma_mul_identities(m.color.x as int);
    lemma_mul_identities(m.color.y as int);
    lemma_mul_identities(m.color.z as int);
    let sp = v_mul(s, m.color);
    lemma_mul_identities(sp.x as int);
    lemma_mul_identities(sp.y as int);
    lemma_mul_identities(sp.z as int);
}

/// At emission 1.0 or more the blend is the emitted light alone.
proof fn lemma_blend_emissive(m: Material, d: Vec3, s: Vec3, t: Vec3)
    requires
        m.emission >= SCALE,
    ensures
        blend_spec(m, d, s, t) == emitted(m),
{
    let one = SCALE as int;
    let base = v_add(v_scale(t, m.transmission as int), v_scale(d, sub_spec(one, m.transmission as int)));
    let layered = v_add(base, v_scale(s, m.specular as int));
    let dm = v_add(
        v_scale(layered, sub_spec(one, m.metallic as int)),
        v_scale(v_mul(s, m.color), m.metallic as int),
    );
    lemma_mul_identities(dm.x as int);
    lemma_mul_identities(dm.y as int);
    lemma_mul_identities(dm.z as int);
}

/// Which way a secondary ray leaves a surface.
#[derive(Clone, Copy, Debug, PartialEq, Eq, Structural)]
pub enum Lobe {
    Diffuse,
    Mirror,
    Glossy,
}

/// Budget of a ray spawned from a parent with `bounce` bounces and `samples`
/// samples: one bounce less; one sample for a diffuse ray, all of them for the
/// mirror ray, half of them (at least one) for a glossy ray.
pub open spec fn child_budget_spec(bounce: u32, samples: u32, lobe: Lobe) -> (u32, u32) {
    let s = match lobe {
        Lobe::Diffuse => 1,
        Lobe::Mirror => samples,
        Lobe::Glossy => if samples / 2 >= 1 { samples / 2 } else { 1 },
    };
    ((bounce - 1) as u32, s)
}

pub fn child_budget(bounce: u32, samples: u32, lobe: Lobe) -> (r: (u32, u32))
    requires
        bounce >= 1,
        samples >= 1,
    ensures
        r == child_budget_spec(bounce, samples, lobe),
        r.0 < bounce,
        1 <= r.1 <= samples,
{
    let s = match lobe {
        Lobe::Diffuse => 1,
        Lobe::Mirror => samples,
        Lobe::Glossy => if samples / 2 >= 1 { samples / 2 } else { 1 },
    };
    (bounce - 1, s)
}

/// Light arriving through the surface. Refraction is not modelled yet, so
/// this term is zero; a fresnel-weighted split of `reflect` and `refract`
/// belongs here.
pub fn transmission_term<M: March, T: Trace>(
    scene: &Scene<M, T>,
    ray: Ray,
    position: Vec3,
    normal: Vec3,
    material: &Material,
    bounce: u32,
    samples: u32,
) -> (r: Vec3)
    ensures
        r == vec3(0, 0, 0),
{
    Vec3::zero()
}

/// Where secondary rays leave a surface point `p` of normal `n`: a little
/// above it, so that they do not find the same surface again.
pub open spec fn spawn_spec(p: Vec3, n: Vec3) -> Vec3 {
    v_add(p, v_scale(n, SURFACE_BIAS as int))
}

pub open spec fn diffuse_ray_spec(p: Vec3, n: Vec3, u: Vec3) -> Ray {
    Ray { origin: spawn_spec(p, n), direction: v_unit(v_add(n, u)) }
}

pub open spec fn mirror_ray_spec(p: Vec3, n: Vec3, incoming: Vec3) -> Ray {
    Ray { origin: spawn_spec(p, n), direction: v_unit(reflect_spec(incoming, n)) }
}

pub open spec fn glossy_ray_spec(p: Vec3, n: Vec3, incoming: Vec3, u: Vec3, roughness: int) -> Ray {
    Ray { origin: spawn_spec(p, n), direction: v_unit(v_add(reflect_spec(incoming, n), v_scale(u, roughness))) }
}

/// Diffuse ray from `p` towards `n + u`, for a point `u` of the unit ball.
pub fn diffuse_ray(p: Vec3, n: Vec3, u: Vec3) -> (r: Ray)
    ensures
        r == diffuse_ray_spec(p, n, u),
{
    Ray::new(p.add(n.scale(SURFACE_BIAS)), n.add(u).unit())
}

/// Mirror ray from `p` for a ray of direction `incoming` meeting normal `n`.
pub fn mirror_ray(p: Vec3, n: Vec3, incoming: Vec3) -> (r: Ray)
    ensures
        r == mirror_ray_spec(p, n, incoming),
{
    Ray::new(p.add(n.scale(SURFACE_BIAS)), reflect(incoming, n).unit())
}

/// Glossy ray: the mirror direction perturbed by `u * roughness`.
pub fn glossy_ray(p: Vec3, n: Vec3, incoming: Vec3, u: Vec3, roughness: i64) -> (r: Ray)
    ensures
        r == glossy_ray_spec(p, n, incoming, u, roughness as int),
{
    Ray::new(p.add(n.scale(SURFACE_BIAS)), reflect(incoming, n).add(u.scale(roughness)).unit())
}

/// `sum of c * xs[i]`, accumulated in order.
pub open spec fn weighted_sum(c: Vec3, xs: Seq<Vec3>) -> Vec3
    decreases xs.len(),
{
    if xs.len() == 0 {
        vec3(0, 0, 0)
    } else {
        v_add(weighted_sum(c, xs.drop_last()), v_mul(c, xs.last()))
    }
}

/// `sum of xs[i]`, accumulated in order.
pub open spec fn plain_sum(xs: Seq<Vec3>) -> Vec3
    decreases xs.len(),
{
    if xs.len() == 0 {
        vec3(0, 0, 0)
    } else {
        v_add(plain_sum(xs.drop_last()), xs.last())
    }
}

/// Diffuse estimate: the mean of `color * x` over the samples `xs`.
pub fn diffuse_average(color: Vec3, xs: &Vec<Vec3>) -> (r: Vec3)
    requires
        1 <= xs.len() <= u32::MAX,
    ensures
        r == v_div(weighted_sum(color, xs@), xs.len() as int),
{
    let mut acc = Vec3::zero();
    let mut i: usize = 0;
    while i < xs.len()
        invariant
            i <= xs.len(),
            acc == weighted_sum(color, xs@.subrange(0, i as int)),
        decreases xs.len() - i,
    {
        proof {
            assert(xs@.subrange(0, i as int + 1).drop_last() =~= xs@.subrange(0, i as int));
        }
        acc = acc.add(color.mul(xs[i]));
        i += 1;
    }
    assert(xs@.subrange(0, xs.len() as int) =~= xs@);
    acc.div(xs.len() as u32)
}

/// Glossy estimate: the mean of the samples `xs`.
pub fn specular_average(xs: &Vec<Vec3>) -> (r: Vec3)
    requires
        1 <= xs.len() <= u32::MAX,
    ensures
        r == v_div(plain_sum(xs@), xs.len() as int),
{
    let mut acc = Vec3::zero();
    let mut i: usize = 0;
    while i < xs.len()
        invariant
            i <= xs.len(),
            acc == plain_sum(xs@.subrange(0, i as int)),
        decreases xs.len() - i,
    {
        proof {
            assert(xs@.subrange(0, i as int + 1).drop_last() =~= xs@.subrange(0, i as int));
        }
        acc = acc.add(xs[i]);
        i += 1;
    }
    assert(xs@.subrange(0, xs.len() as int) =~= xs@);
    acc.div(xs.len() as u32)
}

/// The specular estimate from its samples: the one mirror sample on a
/// smooth surface, else the mean of the glossy samples.
pub open spec fn specular_estimate(m: Material, ss: Seq<Vec3>) -> Vec3 {
    if m.roughness == 0 { ss[0] } else { v_div(plain_sum(ss), ss.len() as int) }
}

/// `r` is the blend at a hit of material `m` from the radiance `ds` of the
/// `samples` diffuse rays and `ss` of the specular rays (one mirror ray on a
/// smooth surface, else `samples` glossy rays).
pub open spec fn shaded_from(m: Material, samples: u32, ds: Seq<Vec3>, ss: Seq<Vec3>, r: Vec3) -> bool {
    &&& ds.len() == samples
    &&& ss.len() == (if m.roughness == 0 { 1 } else { samples as int })
    &&& r == blend_spec(m, v_div(weighted_sum(m.color, ds), samples as int), specular_estimate(m, ss), vec3(0, 0, 0))
}

pub open spec fn nonneg(v: Vec3) -> bool {
    v.x >= 0 && v.y >= 0 && v.z >= 0
}

/// What holds of the radiance `r` returned along `ray` with budgets
/// `(bounce, samples)`. At a hit with bounces left, `r` is the blend of the
/// radiance `ds` of the diffuse rays and `ss` of the specular rays, where
/// each of those rays leaves the hit point `p` as `diffuse_ray`, `mirror_ray`
/// or `glossy_ray` build it from points `us`, `gs` of the unit ball, and its
/// radiance is in turn such an outcome, with the budgets of `child_budget`.
pub open spec fn radiance_post<M: March, T: Trace>(scene: &Scene<M, T>, ray: Ray, bounce: u32, samples: u32, r: Vec3) -> bool
    decreases bounce,
{
    let c = cast_result(scene, ray);
    let m = c.material;
    let p = ray_at(ray, c.distance as int);
    let n = c.normal;
    let (db, dsamp) = child_budget_spec(bounce, samples, Lobe::Diffuse);
    let (sb, ssamp) = child_budget_spec(bounce, samples, Lobe::Mirror);
    let (gb, gsamp) = child_budget_spec(bounce, samples, Lobe::Glossy);
    &&& (!c.hit || bounce == 0) ==> r == emitted(m)
    &&& !c.hit ==> r == emitted(sky_material())
    &&& (c.hit && bounce > 0) ==> exists|ds: Seq<Vec3>, ss: Seq<Vec3>, us: Seq<Vec3>, gs: Seq<Vec3>| {
        &&& shaded_from(m, samples, ds, ss, r)
        &&& us.len() == samples
        &&& forall|i: int| 0 <= i < samples ==> in_unit_ball(#[trigger] us[i])
            && radiance_post(scene, diffuse_ray_spec(p, n, us[i]), db, dsamp, ds[i])
        &&& m.roughness == 0 ==> radiance_post(scene, mirror_ray_spec(p, n, ray.direction), sb, ssamp, ss[0])
        &&& m.roughness != 0 ==> gs.len() == samples && forall|i: int| 0 <= i < samples ==> in_unit_ball(#[trigger] gs[i])
            && radiance_post(scene, glossy_ray_spec(p, n, ray.direction, gs[i], m.roughness as int), gb, gsamp, ss[i])
    }
    &&& (c.hit && m.emission >= SCALE) ==> r == emitted(m)
    &&& diffuse_scene(scene) ==> within_sky(r)
    &&& valid_scene(scene) ==> nonneg(r)
}

/// Radiance arriving back along `ray`. A miss, or an exhausted bounce budget,
/// gives the emitted light of the material found (the sky on a miss);
/// otherwise the material's blend of its diffuse, specular and transmission
/// terms, each estimated from recursive rays. `None` when the ball sampler
/// reported a broken random source.
#[verifier::rlimit(100)]
pub fn color<M: March, T: Trace>(scene: &Scene<M, T>, ray: Ray, bounce: u32, samples: u32) -> (r: Option<Vec3>)
    requires
        samples >= 1,
    ensures
        (!cast_result(scene, ray).hit || bounce == 0) ==> r == Some(emitted(cast_result(scene, ray).material)),
        r matches Some(v) ==> radiance_post(scene, ray, bounce, samples, v),
    decreases bounce,
{
    let c = cast_ray(scene, ray);
    proof {
        lemma_mul_identities(c.material.color.x as int);
        lemma_mul_identities(c.material.color.y as int);
        lemma_mul_identities(c.material.color.z as int);
        if c.hit && diffuse_scene(scene) {
            lemma_hit_material(scene, ray, |m: Material| plain_diffuse(m));
        }
        if c.hit && valid_scene(scene) {
            lemma_hit_material(scene, ray, |m: Material| valid_material(m));
            lemma_vec_nonneg(c.material.color, c.material.color, c.material.emission as int);
        }
        assert(mul_spec(SCALE as int, SCALE as int) == SCALE);
    }
    if !c.hit || bounce == 0 {
        return Some(c.material.emitted());
    }
    let m = c.material;
    let normal = c.normal;
    let position = ray.point_at(c.distance);

    let (db, ds) = child_budget(bounce, samples, Lobe::Diffuse);
    let mut diffuse_samples: Vec<Vec3> = Vec::new();
    let ghost mut us: Seq<Vec3> = Seq::empty();
    let mut k: u32 = 0;
    while k < samples
        invariant
            k <= samples,
            diffuse_samples@.len() == k,
            c == cast_result(scene, ray),
            c.hit,
            bounce > 0,
            db < bounce,
            ds >= 1,
            us.len() == k,
            forall|i: int| 0 <= i < k ==> in_unit_ball(#[trigger] us[i])
                && radiance_post(scene, diffuse_ray_spec(position, normal, us[i]), db, ds, diffuse_samples@[i]),
            forall|i: int| 0 <= i < k ==> (diffuse_scene(scene) ==> within_sky(#[trigger] diffuse_samples@[i])),
            forall|i: int| 0 <= i < k ==> (valid_scene(scene) ==> nonneg(#[trigger] diffuse_samples@[i])),
        decreases samples - k,
    {
        let u = match sample_sphere() {
            Some(u) => u,
            None => return None,
        };
        let sample = match color(scene, diffuse_ray(position, normal, u), db, ds) {
            Some(v) => v,
            None => return None,
        };
        diffuse_samples.push(sample);
        proof {
            us = us.push(u);
        }
        k += 1;
    }
    let diffuse = diffuse_average(m.color, &diffuse_samples);

    let mut specular_samples: Vec<Vec3> = Vec::new();
    let ghost mut gs: Seq<Vec3> = Seq::empty();
    let specular;
    if m.roughness == 0 {
        let (sb, ss) = child_budget(bounce, samples, Lobe::Mirror);
        let sample = match color(scene, mirror_ray(position, normal, ray.direction), sb, ss) {
            Some(v) => v,
            None => return None,
        };
        specular_samples.push(sample);
        specular = sample;
    } else {
        let (gb, gs_n) = child_budget(bounce, samples, Lobe::Glossy);
        let mut k: u32 = 0;
        while k < samples
            invariant
                k <= samples,
                specular_samples@.len() == k,
                c == cast_result(scene, ray),
                c.hit,
                bounce > 0,
                gb < bounce,
                gs_n >= 1,
                gs.len() == k,
                forall|i: int| 0 <= i < k ==> in_unit_ball(#[trigger] gs[i])
                    && radiance_post(scene, glossy_ray_spec(position, normal, ray.direction, gs[i], m.roughness as int), gb, gs_n, specular_samples@[i]),
                forall|i: int| 0 <= i < k ==> (valid_scene(scene) ==> nonneg(#[trigger] specular_samples@[i])),
            decreases samples - k,
        {
            let u = match sample_sphere() {
                Some(u) => u,
                None => return None,
            };
            let sample = match color(scene, glossy_ray(position, normal, ray.direction, u, m.roughness), gb, gs_n) {
                Some(v) => v,
                None => return None,
            };
            specular_samples.push(sample);
            proof {
                gs = gs.push(u);
            }
            k += 1;
        }
        specular = specular_average(&specular_samples);
    }

    let transmission = transmission_term(scene, ray, position, normal, &m, bounce, samples);
    let r = blend(&m, diffuse, specular, transmission);
    proof {
        let dsq = diffuse_samples@;
        let ssq = specular_samples@;
        assert(specular == specular_estimate(m, ssq));
        assert(shaded_from(m, samples, dsq, ssq, r));
        let p = ray_at(ray, c.distance as int);
        assert(us.len() == samples);
        assert(forall|i: int| 0 <= i < samples ==> in_unit_ball(#[trigger] us[i])
            && radiance_post(scene, diffuse_ray_spec(p, normal, us[i]), db, ds, dsq[i]));
        assert(exists|ds2: Seq<Vec3>, ss2: Seq<Vec3>, us2: Seq<Vec3>, gs2: Seq<Vec3>| {
            &&& shaded_from(m, samples, ds2, ss2, r)
            &&& us2.len() == samples
            &&& forall|i: int| 0 <= i < samples ==> in_unit_ball(#[trigger] us2[i])
                && radiance_post(scene, diffuse_ray_spec(p, normal, us2[i]), db, ds, ds2[i])
            &&& m.roughness == 0 ==> radiance_post(scene, mirror_ray_spec(p, normal, ray.direction),
                child_budget_spec(bounce, samples, Lobe::Mirror).0, child_budget_spec(bounce, samples, Lobe::Mirror).1, ss2[0])
            &&& m.roughness != 0 ==> gs2.len() == samples && forall|i: int| 0 <= i < samples ==> in_unit_ball(#[trigger] gs2[i])
                && radiance_post(scene, glossy_ray_spec(p, normal, ray.direction, gs2[i], m.roughness as int),
                    child_budget_spec(bounce, samples, Lobe::Glossy).0, child_budget_spec(bounce, samples, Lobe::Glossy).1, ss2[i])
        }) by {
            assert(m.roughness == 0 ==> ssq[0] == specular);
        }
        if diffuse_scene(scene) {
            lemma_weighted_bounded(m.color, dsq);
            lemma_average_bounded(weighted_sum(m.color, dsq).x as int, samples as int);
            lemma_average_bounded(weighted_sum(m.color, dsq).y as int, samples as int);
            lemma_average_bounded(weighted_sum(m.color, dsq).z as int, samples as int);
            lemma_blend_diffuse(m, diffuse, specular);
        }
        if valid_scene(scene) {
            lemma_weighted_nonneg(m.color, dsq);
            lemma_plain_nonneg(ssq);
            lemma_div_nonneg(weighted_sum(m.color, dsq), samples as int);
            lemma_div_nonneg(plain_sum(ssq), samples as int);
            lemma_blend_nonneg(m, diffuse, specular);
        }
        if m.emission >= SCALE {
            lemma_blend_emissive(m, diffuse, specular, transmission);
        }
    }
    Some(r)
}

} // verus!
