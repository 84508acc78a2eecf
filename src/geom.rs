//! Vectors, rays, materials and intersection results in fixed point.
use vstd::prelude::*;
use crate::fixed::{
    fx_add, fx_sub, fx_mul, div_count, clamp_wide, floor_div, isqrt, sat, add_spec, sub_spec, mul_spec,
    div_count_spec, root, SCALE, LIMIT,
};

verus! {

/// A 3D vector of fixed-point components.
#[derive(Clone, Copy, Debug, PartialEq, Eq, Structural)]
pub struct Vec3 {
    pub x: i64,
    pub y: i64,
    pub z: i64,
}

pub open spec fn vec3(x: int, y: int, z: int) -> Vec3 {
    Vec3 { x: x as i64, y: y as i64, z: z as i64 }
}

pub open spec fn v_add(a: Vec3, b: Vec3) -> Vec3 {
    vec3(add_spec(a.x as int, b.x as int), add_spec(a.y as int, b.y as int), add_spec(a.z as int, b.z as int))
}

pub open spec fn v_sub(a: Vec3, b: Vec3) -> Vec3 {
    vec3(sub_spec(a.x as int, b.x as int), sub_spec(a.y as int, b.y as int), sub_spec(a.z as int, b.z as int))
}

/// Each component times the scalar `k`.
pub open spec fn v_scale(a: Vec3, k: int) -> Vec3 {
    vec3(mul_spec(a.x as int, k), mul_spec(a.y as int, k), mul_spec(a.z as int, k))
}

/// Componentwise product.
pub open spec fn v_mul(a: Vec3, b: Vec3) -> Vec3 {
    vec3(mul_spec(a.x as int, b.x as int), mul_spec(a.y as int, b.y as int), mul_spec(a.z as int, b.z as int))
}

/// Each component divided by a count.
pub open spec fn v_div(a: Vec3, n: int) -> Vec3 {
    vec3(div_count_spec(a.x as int, n), div_count_spec(a.y as int, n), div_count_spec(a.z as int, n))
}

pub open spec fn v_dot(a: Vec3, b: Vec3) -> int {
    add_spec(add_spec(mul_spec(a.x as int, b.x as int), mul_spec(a.y as int, b.y as int)), mul_spec(a.z as int, b.z as int))
}

/// Squared length in raw units, of the components clamped into range.
pub open spec fn sq_len(a: Vec3) -> int {
    let x = sat(a.x as int);
    let y = sat(a.y as int);
    let z = sat(a.z as int);
    x * x + y * y + z * z
}

/// Length in raw units, rounded down.
pub open spec fn v_len(a: Vec3) -> int {
    root(sq_len(a))
}

/// The vector scaled to length 1.0 (rounded down per component); the zero
/// vector stays zero.
pub open spec fn v_unit(a: Vec3) -> Vec3 {
    let n = v_len(a);
    if n == 0 {
        vec3(0, 0, 0)
    } else {
        vec3(
            sat(a.x as int) * SCALE / n,
            sat(a.y as int) * SCALE / n,
            sat(a.z as int) * SCALE / n,
        )
    }
}

pub proof fn lemma_sat_bounds(x: int)
    ensures
        -LIMIT <= sat(x) <= LIMIT,
        -LIMIT <= x <= LIMIT ==> sat(x) == x,
{
}

impl Vec3 {
    pub fn new(x: i64, y: i64, z: i64) -> (r: Vec3)
        ensures
            r == (Vec3 { x, y, z }),
    {
        Vec3 { x, y, z }
    }

    pub fn zero() -> (r: Vec3)
        ensures
            r == vec3(0, 0, 0),
    {
        Vec3 { x: 0, y: 0, z: 0 }
    }

    pub fn add(self, o: Vec3) -> (r: Vec3)
        ensures
            r == v_add(self, o),
    {
        Vec3 { x: fx_add(self.x, o.x), y: fx_add(self.y, o.y), z: fx_add(self.z, o.z) }
    }

    pub fn sub(self, o: Vec3) -> (r: Vec3)
        ensures
            r == v_sub(self, o),
    {
        Vec3 { x: fx_sub(self.x, o.x), y: fx_sub(self.y, o.y), z: fx_sub(self.z, o.z) }
    }

    pub fn scale(self, k: i64) -> (r: Vec3)
        ensures
            r == v_scale(self, k as int),
    {
        Vec3 { x: fx_mul(self.x, k), y: fx_mul(self.y, k), z: fx_mul(self.z, k) }
    }

    pub fn mul(self, o: Vec3) -> (r: Vec3)
        ensures
            r == v_mul(self, o),
    {
        Vec3 { x: fx_mul(self.x, o.x), y: fx_mul(self.y, o.y), z: fx_mul(self.z, o.z) }
    }

    pub fn div(self, n: u32) -> (r: Vec3)
        requires
            n > 0,
        ensures
            r == v_div(self, n as int),
    {
        Vec3 { x: div_count(self.x, n), y: div_count(self.y, n), z: div_count(self.z, n) }
    }

    pub fn dot(self, o: Vec3) -> (r: i64)
        ensures
            r == v_dot(self, o),
    {
        fx_add(fx_add(fx_mul(self.x, o.x), fx_mul(self.y, o.y)), fx_mul(self.z, o.z))
    }

    pub fn length(self) -> (r: i64)
        ensures
            r == v_len(self),
            0 <= r <= 2 * LIMIT,
    {
        let x = clamp_wide(self.x as i128);
        let y = clamp_wide(self.y as i128);
        let z = clamp_wide(self.z as i128);
        assert(x as int * x as int <= LIMIT * LIMIT) by (nonlinear_arith)
            requires -LIMIT <= x <= LIMIT;
        assert(y as int * y as int <= LIMIT * LIMIT) by (nonlinear_arith)
            requires -LIMIT <= y <= LIMIT;
        assert(z as int * z as int <= LIMIT * LIMIT) by (nonlinear_arith)
            requires -LIMIT <= z <= LIMIT;
        assert(x as int * x as int >= 0 && y as int * y as int >= 0 && z as int * z as int >= 0) by (nonlinear_arith);
        let w: i128 = x as i128 * x as i128 + y as i128 * y as i128 + z as i128 * z as i128;
        assert(LIMIT * LIMIT == 1_000_000_000_000_000_000_000_000);
        assert(0 <= w < crate::fixed::ROOT_BOUND);
        let s: u128 = w as u128;
        let n = isqrt(s);
        proof {
            let ni = n as int;
            if ni > 2 * LIMIT {
                assert(ni * ni > 4 * LIMIT * LIMIT) by (nonlinear_arith)
                    requires ni > 2 * LIMIT;
            }
        }
        n as i64
    }

    pub fn unit(self) -> (r: Vec3)
        ensures
            r == v_unit(self),
    {
        let n = self.length();
        if n == 0 {
            Vec3::zero()
        } else {
            let x = clamp_wide(self.x as i128);
            let y = clamp_wide(self.y as i128);
            let z = clamp_wide(self.z as i128);
            proof {
                lemma_unit_component(x as int, n as int);
                lemma_unit_component(y as int, n as int);
                lemma_unit_component(z as int, n as int);
            }
            Vec3 {
                x: floor_div(x as i128 * SCALE as i128, n as i128) as i64,
                y: floor_div(y as i128 * SCALE as i128, n as i128) as i64,
                z: floor_div(z as i128 * SCALE as i128, n as i128) as i64,
            }
        }
    }
}

proof fn lemma_unit_component(c: int, n: int)
    requires
        -LIMIT <= c <= LIMIT,
        1 <= n,
    ensures
        -LIMIT * SCALE <= c * SCALE <= LIMIT * SCALE,
        -LIMIT * SCALE <= c * SCALE / n <= LIMIT * SCALE,
{
    assert(-LIMIT * SCALE <= c * SCALE <= LIMIT * SCALE) by (nonlinear_arith)
        requires -LIMIT <= c <= LIMIT;
    let p = c * SCALE;
    if p >= 0 {
        vstd::arithmetic::div_mod::lemma_div_is_ordered_by_denominator(p, 1, n);
        vstd::arithmetic::div_mod::lemma_div_pos_is_pos(p, n);
    } else {
        vstd::arithmetic::div_mod::lemma_div_is_ordered(p, 0, n);
        vstd::arithmetic::div_mod::lemma_div_is_ordered_by_denominator(-p, 1, n);
        vstd::arithmetic::div_mod::lemma_fundamental_div_mod(p, n);
        vstd::arithmetic::div_mod::lemma_fundamental_div_mod(-p, n);
        assert(p / n >= p) by (nonlinear_arith)
            requires p < 0, n >= 1, p == n * (p / n) + p % n, 0 <= p % n < n;
    }
}

/// A ray: `origin + direction * t`, with `direction` meant to be of length 1.0.
#[derive(Clone, Copy, Debug, PartialEq, Eq, Structural)]
pub struct Ray {
    pub origin: Vec3,
    pub direction: Vec3,
}

pub open spec fn ray_at(r: Ray, t: int) -> Vec3 {
    v_add(r.origin, v_scale(r.direction, t))
}

/// The ray from `from` towards `to`.
pub open spec fn ray_through(from: Vec3, to: Vec3) -> Ray {
    Ray { origin: from, direction: v_unit(v_sub(to, from)) }
}

impl Ray {
    pub fn new(origin: Vec3, direction: Vec3) -> (r: Ray)
        ensures
            r == (Ray { origin, direction }),
    {
        Ray { origin, direction }
    }

    pub fn through(from: Vec3, to: Vec3) -> (r: Ray)
        ensures
            r == ray_through(from, to),
    {
        Ray { origin: from, direction: to.sub(from).unit() }
    }

    pub fn point_at(&self, t: i64) -> (r: Vec3)
        ensures
            r == ray_at(*self, t as int),
    {
        self.origin.add(self.direction.scale(t))
    }
}

/// Surface response. `color` is an albedo or radiance; the scalar weights are
/// fixed-point values meant to lie in [0, 1.0] (emission may exceed it).
#[derive(Clone, Copy, Debug, PartialEq, Eq, Structural)]
pub struct Material {
    pub color: Vec3,
    pub emission: i64,
    pub metallic: i64,
    pub roughness: i64,
    pub transmission: i64,
    pub specular: i64,
}

pub open spec fn blank_material() -> Material {
    Material {
        color: vec3(0, 0, 0),
        emission: 0,
        metallic: 0,
        roughness: 0,
        transmission: 0,
        specular: 0,
    }
}

/// The background: white light of emission 1.0.
pub open spec fn sky_material() -> Material {
    Material {
        color: vec3(SCALE as int, SCALE as int, SCALE as int),
        emission: SCALE,
        metallic: 0,
        roughness: 0,
        transmission: 0,
        specular: 0,
    }
}

/// Light a material gives off by itself: `color * emission`.
pub open spec fn emitted(m: Material) -> Vec3 {
    v_scale(m.color, m.emission as int)
}

impl Material {
    pub fn blank() -> (r: Material)
        ensures
            r == blank_material(),
    {
        Material {
            color: Vec3::zero(),
            emission: 0,
            metallic: 0,
            roughness: 0,
            transmission: 0,
            specular: 0,
        }
    }

    pub fn sky() -> (r: Material)
        ensures
            r == sky_material(),
    {
        Material {
            color: Vec3::new(SCALE, SCALE, SCALE),
            emission: SCALE,
            metallic: 0,
            roughness: 0,
            transmission: 0,
            specular: 0,
        }
    }

    pub fn emitted(&self) -> (r: Vec3)
        ensures
            r == emitted(*self),
    {
        self.color.scale(self.emission)
    }
}

/// Stands for an infinite distance.
pub const FAR_AWAY: i64 = i64::MAX;

/// The outcome of one intersection query.
#[derive(Clone, Copy, Debug, PartialEq, Eq, Structural)]
pub struct CastResult {
    pub hit: bool,
    pub distance: i64,
    pub normal: Vec3,
    pub material: Material,
}

/// A definite miss along a ray of direction `d`: the sky, infinitely far.
pub open spec fn worst_result(d: Vec3) -> CastResult {
    CastResult { hit: false, distance: FAR_AWAY, normal: d, material: sky_material() }
}

impl CastResult {
    pub fn new(hit: bool, distance: i64, normal: Vec3, material: Material) -> (r: CastResult)
        ensures
            r == (CastResult { hit, distance, normal, material }),
    {
        CastResult { hit, distance, normal, material }
    }

    pub fn worst(direction: Vec3) -> (r: CastResult)
        ensures
            r == worst_result(direction),
    {
        CastResult { hit: false, distance: FAR_AWAY, normal: direction, material: Material::sky() }
    }
}

} // verus!
