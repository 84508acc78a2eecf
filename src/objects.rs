//! The two geometry capabilities and a sphere that offers both.
use vstd::prelude::*;
use crate::fixed::{fx_sqrt, sat, sqrt_spec, sub_spec, mul_spec};
use crate::geom::{
    Vec3, Ray, Material, FAR_AWAY, v_sub, v_dot, v_len, v_unit, ray_at,
};

verus! {

/// An implicit surface, given by a signed distance field that never
/// overstates how close a point is to the surface.
pub trait March {
    spec fn sdf_spec(&self, p: Vec3) -> i64;

    spec fn material_spec(&self) -> Material;

    fn sdf(&self, p: Vec3) -> (r: i64)
        ensures
            r == self.sdf_spec(p);

    fn material(&self) -> (m: Material)
        ensures
            m == self.material_spec();
}

/// An explicit surface with an exact ray intersection: whether the ray hits,
/// at which distance, and the unit normal there.
pub trait Trace {
    spec fn trace_spec(&self, ray: Ray) -> (bool, i64, Vec3);

    spec fn material_spec(&self) -> Material;

    fn trace(&self, ray: Ray) -> (r: (bool, i64, Vec3))
        ensures
            r == self.trace_spec(ray);

    fn material(&self) -> (m: Material)
        ensures
            m == self.material_spec();
}

/// A sphere, usable as either kind of object.
#[derive(Clone, Copy, Debug, PartialEq, Eq, Structural)]
pub struct Sphere {
    pub center: Vec3,
    pub radius: i64,
    pub material: Material,
}

pub open spec fn sphere_sdf(s: Sphere, p: Vec3) -> i64 {
    sub_spec(v_len(v_sub(p, s.center)), s.radius as int) as i64
}

/// Nearest intersection in front of the origin of the ray, solving
/// `|o + t d - c|^2 = r^2` for `t` with `b = (o - c)·d`.
pub open spec fn sphere_trace(s: Sphere, ray: Ray) -> (bool, i64, Vec3) {
    let oc = v_sub(ray.origin, s.center);
    let b = v_dot(oc, ray.direction);
    let c = sub_spec(v_dot(oc, oc), mul_spec(s.radius as int, s.radius as int));
    let disc = sub_spec(mul_spec(b, b), c);
    if disc < 0 {
        (false, FAR_AWAY, ray.direction)
    } else {
        let root = sqrt_spec(disc);
        let near = sub_spec(-b, root);
        let far = sat(-b + root);
        if near > 0 {
            (true, near as i64, v_unit(v_sub(ray_at(ray, near), s.center)))
        } else if far > 0 {
            (true, far as i64, v_unit(v_sub(ray_at(ray, far), s.center)))
        } else {
            (false, FAR_AWAY, ray.direction)
        }
    }
}

impl Sphere {
    pub fn new(center: Vec3, radius: i64, material: Material) -> (r: Sphere)
        ensures
            r == (Sphere { center, radius, material }),
    {
        Sphere { center, radius, material }
    }
}

impl March for Sphere {
    open spec fn sdf_spec(&self, p: Vec3) -> i64 {
        sphere_sdf(*self, p)
    }

    open spec fn material_spec(&self) -> Material {
        self.material
    }

    fn sdf(&self, p: Vec3) -> (r: i64) {
        crate::fixed::fx_sub(p.sub(self.center).length(), self.radius)
    }

    fn material(&self) -> (m: Material) {
        self.material
    }
}

impl Trace for Sphere {
    open spec fn trace_spec(&self, ray: Ray) -> (bool, i64, Vec3) {
        sphere_trace(*self, ray)
    }

    open spec fn material_spec(&self) -> Material {
        self.material
    }

    fn trace(&self, ray: Ray) -> (r: (bool, i64, Vec3)) {
        let oc = ray.origin.sub(self.center);
        let b = oc.dot(ray.direction);
        let c = crate::fixed::fx_sub(oc.dot(oc), crate::fixed::fx_mul(self.radius, self.radius));
        let disc = crate::fixed::fx_sub(crate::fixed::fx_mul(b, b), c);
        if disc < 0 {
            (false, FAR_AWAY, ray.direction)
        } else {
            let root = fx_sqrt(disc);
            let near = crate::fixed::fx_sub(-b, root);
            let far = crate::fixed::clamp_wide(-b as i128 + root as i128);
            if near > 0 {
                (true, near, ray.point_at(near).sub(self.center).unit())
            } else if far > 0 {
                (true, far, ray.point_at(far).sub(self.center).unit())
            } else {
                (false, FAR_AWAY, ray.direction)
            }
        }
    }

    fn material(&self) -> (m: Material) {
        self.material
    }
}

} // verus!
