//! Intersection: sphere marching over the implicit objects, nearest analytic
//! hit over the explicit ones, and the dispatcher that picks between them.
use vstd::prelude::*;
use crate::fixed::{sub_spec, add_spec, SCALE};
use crate::geom::{
    Vec3, Ray, Material, CastResult, blank_material, vec3, v_unit, ray_at, worst_result, FAR_AWAY,
};
use crate::objects::{March, Trace};

verus! {

/// Upper bound on marching steps.
pub const MAX_STEPS: u32 = 128;

/// Far plane: a ray that has travelled this far without a hit misses.
pub const MAX_DEPTH: i64 = 512 * SCALE;

/// Surface tolerance (0.001) and the step of the normal estimate.
pub const EPSILON: i64 = 1000;

/// Where the camera sits.
#[derive(Clone, Copy, Debug, PartialEq, Eq, Structural)]
pub struct Camera {
    pub origin: Vec3,
}

/// The objects to render, each kind in its own ordered collection.
pub struct Scene<M, T> {
    pub march: Vec<M>,
    pub trace: Vec<T>,
    pub camera: Camera,
}

/// Combined field: the least distance over `objs` at `p`, with the material of
/// the first object that attains it; `(FAR_AWAY, blank)` when there is none.
pub open spec fn field<M: March>(objs: Seq<M>, p: Vec3) -> (i64, Material)
    decreases objs.len(),
{
    if objs.len() == 0 {
        (FAR_AWAY, blank_material())
    } else {
        let rest = field(objs.drop_last(), p);
        let d = objs.last().sdf_spec(p);
        if d < rest.0 {
            (d, objs.last().material_spec())
        } else {
            rest
        }
    }
}

/// Central difference of the field along each axis with step `EPSILON`, normalised.
pub open spec fn field_normal<M: March>(objs: Seq<M>, p: Vec3) -> Vec3 {
    let e = EPSILON as int;
    let dx = sub_spec(
        field(objs, vec3(add_spec(p.x as int, e), p.y as int, p.z as int)).0 as int,
        field(objs, vec3(sub_spec(p.x as int, e), p.y as int, p.z as int)).0 as int,
    );
    let dy = sub_spec(
        field(objs, vec3(p.x as int, add_spec(p.y as int, e), p.z as int)).0 as int,
        field(objs, vec3(p.x as int, sub_spec(p.y as int, e), p.z as int)).0 as int,
    );
    let dz = sub_spec(
        field(objs, vec3(p.x as int, p.y as int, add_spec(p.z as int, e))).0 as int,
        field(objs, vec3(p.x as int, p.y as int, sub_spec(p.z as int, e))).0 as int,
    );
    v_unit(vec3(dx, dy, dz))
}

/// Sphere marching from `depth` with `steps` steps left.
pub open spec fn march_from<M: March>(objs: Seq<M>, ray: Ray, depth: int, steps: nat) -> CastResult
    decreases steps,
{
    if steps == 0 {
        worst_result(ray.direction)
    } else {
        let p = ray_at(ray, depth);
        let (d, m) = field(objs, p);
        if d <= EPSILON {
            CastResult { hit: true, distance: depth as i64, normal: field_normal(objs, p), material: m }
        } else if depth >= MAX_DEPTH {
            worst_result(ray.direction)
        } else {
            march_from(objs, ray, add_spec(depth, d as int), (steps - 1) as nat)
        }
    }
}

pub open spec fn march_result<M: March>(objs: Seq<M>, ray: Ray) -> CastResult {
    march_from(objs, ray, 0, MAX_STEPS as nat)
}

/// Nearest valid analytic hit: further than `EPSILON`, and strictly nearer than
/// every earlier one, so the earliest object wins a tie.
pub open spec fn trace_result<T: Trace>(objs: Seq<T>, ray: Ray) -> CastResult
    decreases objs.len(),
{
    if objs.len() == 0 {
        worst_result(ray.direction)
    } else {
        let best = trace_result(objs.drop_last(), ray);
        let (h, d, n) = objs.last().trace_spec(ray);
        if h && d > EPSILON && (!best.hit || d < best.distance) {
            CastResult { hit: true, distance: d, normal: n, material: objs.last().material_spec() }
        } else {
            best
        }
    }
}

/// The dispatcher's choice between the two solvers; the analytic side wins ties.
pub open spec fn pick(m: CastResult, t: CastResult, ray: Ray) -> CastResult {
    if !m.hit && !t.hit {
        worst_result(ray.direction)
    } else if t.hit && (!m.hit || t.distance <= m.distance) {
        t
    } else {
        m
    }
}

pub open spec fn cast_result<M: March, T: Trace>(scene: &Scene<M, T>, ray: Ray) -> CastResult {
    pick(march_result(scene.march@, ray), trace_result(scene.trace@, ray), ray)
}

/// A material that only scatters diffusely, reflects no more than it
/// receives, and emits nothing.
pub open spec fn plain_diffuse(m: Material) -> bool {
    &&& 0 <= m.color.x <= SCALE
    &&& 0 <= m.color.y <= SCALE
    &&& 0 <= m.color.z <= SCALE
    &&& m.emission == 0
    &&& m.metallic == 0
    &&& m.transmission == 0
    &&& m.specular == 0
}

/// A material that could sit on an object: non-negative color and emission,
/// and blend weights in [0, 1.0].
pub open spec fn valid_material(m: Material) -> bool {
    &&& m.color.x >= 0 && m.color.y >= 0 && m.color.z >= 0
    &&& m.emission >= 0
    &&& 0 <= m.metallic <= SCALE
    &&& 0 <= m.transmission <= SCALE
    &&& 0 <= m.specular <= SCALE
}

/// Every object of the scene has a material satisfying `pred`.
pub open spec fn all_materials<M: March, T: Trace>(scene: &Scene<M, T>, pred: spec_fn(Material) -> bool) -> bool {
    &&& forall|i: int| 0 <= i < scene.march@.len() ==> pred(#[trigger] scene.march@[i].material_spec())
    &&& forall|j: int| 0 <= j < scene.trace@.len() ==> pred(#[trigger] scene.trace@[j].material_spec())
}

/// Every object of the scene has a plain diffuse material.
pub open spec fn diffuse_scene<M: March, T: Trace>(scene: &Scene<M, T>) -> bool {
    all_materials(scene, |m: Material| plain_diffuse(m))
}

/// Every object of the scene has a valid material.
pub open spec fn valid_scene<M: March, T: Trace>(scene: &Scene<M, T>) -> bool {
    all_materials(scene, |m: Material| valid_material(m))
}

proof fn lemma_field_material<M: March>(objs: Seq<M>, p: Vec3, pred: spec_fn(Material) -> bool)
    requires
        pred(blank_material()),
        forall|i: int| 0 <= i < objs.len() ==> pred(#[trigger] objs[i].material_spec()),
    ensures
        pred(field(objs, p).1),
    decreases objs.len(),
{
    if objs.len() > 0 {
        let rest = objs.drop_last();
        assert forall|i: int| 0 <= i < rest.len() implies pred(#[trigger] rest[i].material_spec()) by {
            assert(rest[i] == objs[i]);
        }
        lemma_field_material(rest, p, pred);
        assert(pred(objs[objs.len() - 1].material_spec()));
    }
}

proof fn lemma_march_material<M: March>(objs: Seq<M>, ray: Ray, depth: int, steps: nat, pred: spec_fn(Material) -> bool)
    requires
        pred(blank_material()),
        forall|i: int| 0 <= i < objs.len() ==> pred(#[trigger] objs[i].material_spec()),
        march_from(objs, ray, depth, steps).hit,
    ensures
        pred(march_from(objs, ray, depth, steps).material),
    decreases steps,
{
    if steps > 0 {
        let p = ray_at(ray, depth);
        lemma_field_material(objs, p, pred);
        let (d, m) = field(objs, p);
        if d > EPSILON && depth < MAX_DEPTH {
            lemma_march_material(objs, ray, add_spec(depth, d as int), (steps - 1) as nat, pred);
        }
    }
}

proof fn lemma_trace_material<T: Trace>(objs: Seq<T>, ray: Ray, pred: spec_fn(Material) -> bool)
    requires
        forall|i: int| 0 <= i < objs.len() ==> pred(#[trigger] objs[i].material_spec()),
        trace_result(objs, ray).hit,
    ensures
        pred(trace_result(objs, ray).material),
    decreases objs.len(),
{
    if objs.len() > 0 {
        let rest = objs.drop_last();
        assert forall|i: int| 0 <= i < rest.len() implies pred(#[trigger] rest[i].material_spec()) by {
            assert(rest[i] == objs[i]);
        }
        assert(pred(objs[objs.len() - 1].material_spec()));
        if trace_result(rest, ray).hit {
            lemma_trace_material(rest, ray, pred);
        }
    }
}

/// When every object's material satisfies `pred` (and so does the blank
/// placeholder), so does the material of every hit.
pub proof fn lemma_hit_material<M: March, T: Trace>(scene: &Scene<M, T>, ray: Ray, pred: spec_fn(Material) -> bool)
    requires
        pred(blank_material()),
        all_materials(scene, pred),
        cast_result(scene, ray).hit,
    ensures
        pred(cast_result(scene, ray).material),
{
    let m = march_result(scene.march@, ray);
    let t = trace_result(scene.trace@, ray);
    if m.hit {
        lemma_march_material(scene.march@, ray, 0, MAX_STEPS as nat, pred);
    }
    if t.hit {
        lemma_trace_material(scene.trace@, ray, pred);
    }
}

/// Evaluates the combined field.
pub fn scene_sdf<M: March>(march: &Vec<M>, p: Vec3) -> (r: (i64, Material))
    ensures
        r == field(march@, p),
{
    let mut min: i64 = FAR_AWAY;
    let mut mat = Material::blank();
    let mut i: usize = 0;
    while i < march.len()
        invariant
            i <= march@.len(),
            (min, mat) == field(march@.subrange(0, i as int), p),
        decreases march@.len() - i,
    {
        let d = march[i].sdf(p);
        proof {
            let s = march@.subrange(0, i as int + 1);
            assert(s.drop_last() =~= march@.subrange(0, i as int));
            assert(s.last() == march@[i as int]);
        }
        if d < min {
            min = d;
            mat = march[i].material();
        }
        i += 1;
    }
    assert(march@.subrange(0, march@.len() as int) =~= march@);
    (min, mat)
}

/// Estimates the surface normal at `p` from the field's gradient.
pub fn scene_normal<M: March>(march: &Vec<M>, p: Vec3) -> (r: Vec3)
    ensures
        r == field_normal(march@, p),
{
    let e = EPSILON;
    let dx = crate::fixed::fx_sub(
        scene_sdf(march, Vec3::new(crate::fixed::fx_add(p.x, e), p.y, p.z)).0,
        scene_sdf(march, Vec3::new(crate::fixed::fx_sub(p.x, e), p.y, p.z)).0,
    );
    let dy = crate::fixed::fx_sub(
        scene_sdf(march, Vec3::new(p.x, crate::fixed::fx_add(p.y, e), p.z)).0,
        scene_sdf(march, Vec3::new(p.x, crate::fixed::fx_sub(p.y, e), p.z)).0,
    );
    let dz = crate::fixed::fx_sub(
        scene_sdf(march, Vec3::new(p.x, p.y, crate::fixed::fx_add(p.z, e))).0,
        scene_sdf(march, Vec3::new(p.x, p.y, crate::fixed::fx_sub(p.z, e))).0,
    );
    Vec3::new(dx, dy, dz).unit()
}

/// Sphere-marches `ray` through the combined field of `march`.
pub fn hit_march<M: March>(march: &Vec<M>, ray: Ray) -> (r: CastResult)
    ensures
        r == march_result(march@, ray),
{
    let mut depth: i64 = 0;
    let mut step: u32 = 0;
    while step < MAX_STEPS
        invariant
            0 <= depth <= crate::fixed::LIMIT,
            step <= MAX_STEPS,
            march_result(march@, ray) == march_from(march@, ray, depth as int, (MAX_STEPS - step) as nat),
        decreases MAX_STEPS - step,
    {
        let point = ray.point_at(depth);
        let (distance, material) = scene_sdf(march, point);
        if distance <= EPSILON {
            let normal = scene_normal(march, point);
            return CastResult::new(true, depth, normal, material);
        }
        if depth >= MAX_DEPTH {
            return CastResult::worst(ray.direction);
        }
        depth = crate::fixed::fx_add(depth, distance);
        step += 1;
    }
    CastResult::worst(ray.direction)
}

/// Finds the nearest valid analytic hit among `trace`.
pub fn hit_trace<T: Trace>(trace: &Vec<T>, ray: Ray) -> (r: CastResult)
    ensures
        r == trace_result(trace@, ray),
{
    let mut best = CastResult::worst(ray.direction);
    let mut i: usize = 0;
    while i < trace.len()
        invariant
            i <= trace@.len(),
            best == trace_result(trace@.subrange(0, i as int), ray),
        decreases trace@.len() - i,
    {
        let (hit, distance, normal) = trace[i].trace(ray);
        proof {
            let s = trace@.subrange(0, i as int + 1);
            assert(s.drop_last() =~= trace@.subrange(0, i as int));
            assert(s.last() == trace@[i as int]);
        }
        if hit && distance > EPSILON && (!best.hit || distance < best.distance) {
            best = CastResult::new(true, distance, normal, trace[i].material());
        }
        i += 1;
    }
    assert(trace@.subrange(0, trace@.len() as int) =~= trace@);
    best
}

/// Runs both solvers and keeps the nearer hit; the analytic one wins ties.
pub fn cast_ray<M: March, T: Trace>(scene: &Scene<M, T>, ray: Ray) -> (r: CastResult)
    ensures
        r == cast_result(scene, ray),
{
    let march = hit_march(&scene.march, ray);
    let trace = hit_trace(&scene.trace, ray);
    if !march.hit && !trace.hit {
        return CastResult::worst(ray.direction);
    }
    if trace.hit && (!march.hit || trace.distance <= march.distance) {
        return trace;
    }
    march
}

} // verus!
