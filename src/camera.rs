//! Primary rays and the per-pixel entry point.
use vstd::prelude::*;
use crate::fixed::{fx_sub, fx_mul, clamp_wide, floor_div, sat, sub_spec, mul_spec, SCALE};
use crate::geom::{Vec3, Ray, vec3, v_unit, emitted, sky_material};
use crate::objects::{March, Trace};
use crate::solver::{Scene, cast_result};
use crate::shade::{color, radiance_post, MAX_BOUNCES, SAMPLES};

verus! {

/// Image-plane distance `1 / tan(fov / 2)` for a vertical field of view of
/// 120 degrees.
pub const PLANE_120: i64 = 577_350;

/// The ray from `origin` through the centred image point `uv`, where the
/// horizontal axis spans `ratio` and the image plane lies `plane` down `-z`.
pub open spec fn make_ray_spec(origin: Vec3, plane: int, ratio: int, uv: [i64; 2]) -> Ray {
    let x = sub_spec(uv[0] as int, mul_spec(ratio, SCALE / 2));
    let y = sub_spec(uv[1] as int, SCALE / 2);
    Ray { origin, direction: v_unit(vec3(x, y, sat(-plane))) }
}

pub fn make_ray(origin: Vec3, plane: i64, ratio: i64, uv: [i64; 2]) -> (r: Ray)
    ensures
        r == make_ray_spec(origin, plane as int, ratio as int, uv),
{
    let x = fx_sub(uv[0], fx_mul(ratio, SCALE / 2));
    let y = fx_sub(uv[1], SCALE / 2);
    Ray::new(origin, Vec3::new(x, y, clamp_wide(-(plane as i128))).unit())
}

/// Width over height, in fixed point.
pub open spec fn aspect_spec(resolution: [usize; 2]) -> int {
    sat(resolution[0] as int * SCALE / resolution[1] as int)
}

/// The primary ray for pixel coordinates `uv` (fixed point, one pixel being
/// 1.0) in an image of `resolution`.
pub open spec fn primary_ray<M, T>(scene: &Scene<M, T>, uv: [i64; 2], resolution: [usize; 2]) -> Ray {
    let ratio = aspect_spec(resolution);
    let u = mul_spec(sat(uv[0] as int / resolution[0] as int), ratio);
    let v = sat(uv[1] as int / resolution[1] as int);
    make_ray_spec(scene.camera.origin, PLANE_120 as int, ratio, [u as i64, v as i64])
}

/// One radiance sample for the pixel at `uv`: the integrator run on the
/// primary ray with the default budgets; `None` when the ball sampler
/// reported a broken random source.
pub fn render<M: March, T: Trace>(scene: &Scene<M, T>, uv: [i64; 2], resolution: [usize; 2]) -> (r: Option<Vec3>)
    requires
        resolution[0] > 0,
        resolution[1] > 0,
    ensures
        !cast_result(scene, primary_ray(scene, uv, resolution)).hit
            ==> r == Some(emitted(sky_material())),
        r matches Some(v) ==> radiance_post(scene, primary_ray(scene, uv, resolution), MAX_BOUNCES, SAMPLES, v),
{
    let w = resolution[0] as i128;
    let h = resolution[1] as i128;
    let ratio = clamp_wide(floor_div(w * SCALE as i128, h));
    let u = fx_mul(clamp_wide(floor_div(uv[0] as i128, w)), ratio);
    let v = clamp_wide(floor_div(uv[1] as i128, h));
    let ray = make_ray(scene.camera.origin, PLANE_120, ratio, [u, v]);
    color(scene, ray, MAX_BOUNCES, SAMPLES)
}

} // verus!
