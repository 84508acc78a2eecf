use pathmarch::camera::{make_ray, render, PLANE_120};
use pathmarch::fixed::{fx_div, fx_mul, fx_sqrt, isqrt, LIMIT, SCALE};
use pathmarch::geom::{CastResult, Material, Ray, Vec3};
use pathmarch::objects::{March, Sphere, Trace};
use pathmarch::shade::{
    accept_point, blend, child_budget, color, diffuse_average, diffuse_ray, fresnel, glossy_ray, mirror_ray, reflect,
    refract, sample_sphere, specular_average, Lobe,
};
use pathmarch::solver::{cast_ray, hit_march, hit_trace, scene_sdf, Camera, Scene};

const ONE: i64 = 1_000_000;

fn v(x: i64, y: i64, z: i64) -> Vec3 {
    Vec3::new(x, y, z)
}

fn white_diffuse() -> Material {
    Material {
        color: v(ONE, ONE, ONE),
        emission: 0,
        metallic: 0,
        roughness: ONE,
        transmission: 0,
        specular: 0,
    }
}

fn tinted(r: i64) -> Material {
    Material { color: v(r, 0, 0), ..white_diffuse() }
}

fn camera() -> Camera {
    Camera { origin: v(0, 0, 5 * ONE) }
}

fn empty_scene() -> Scene<Sphere, Sphere> {
    Scene { march: vec![], trace: vec![], camera: camera() }
}

fn down_z(from: i64) -> Ray {
    Ray::new(v(0, 0, from), v(0, 0, -ONE))
}

fn sky() -> Vec3 {
    v(ONE, ONE, ONE)
}

#[test]
fn fixed_point_arithmetic() {
    assert_eq!(SCALE, ONE);
    assert_eq!(fx_mul(1_500_000, 2_000_000), 3_000_000);
    assert_eq!(fx_mul(-1_500_000, 1_000_001), -1_500_002);
    assert_eq!(fx_mul(LIMIT, LIMIT), LIMIT);
    assert_eq!(fx_div(ONE, 3 * ONE), 333_333);
    assert_eq!(isqrt(0), 0);
    assert_eq!(isqrt(24), 4);
    assert_eq!(isqrt(25), 5);
    assert_eq!(fx_sqrt(4 * ONE), 2 * ONE);
}

#[test]
fn vectors() {
    let a = v(3 * ONE, 0, 4 * ONE);
    assert_eq!(a.length(), 5 * ONE);
    assert_eq!(a.unit(), v(600_000, 0, 800_000));
    assert_eq!(Vec3::zero().unit(), Vec3::zero());
    assert_eq!(a.dot(v(ONE, ONE, ONE)), 7 * ONE);
    assert_eq!(a.div(3), v(ONE, 0, 1_333_333));
    assert_eq!(down_z(5 * ONE).point_at(4 * ONE), v(0, 0, ONE));
}

#[test]
fn traceable_unit_sphere_hit() {
    let scene = Scene {
        march: Vec::<Sphere>::new(),
        trace: vec![Sphere::new(Vec3::zero(), ONE, white_diffuse())],
        camera: camera(),
    };
    let c = cast_ray(&scene, down_z(5 * ONE));
    assert!(c.hit);
    assert_eq!(c.distance, 4 * ONE);
    assert_eq!(c.normal, v(0, 0, ONE));
    assert_eq!(c.material, white_diffuse());
}

#[test]
fn empty_scene_shows_sky() {
    let scene = empty_scene();
    let ray = down_z(5 * ONE);
    let c = cast_ray(&scene, ray);
    assert!(!c.hit);
    assert_eq!(c, CastResult::worst(ray.direction));
    assert_eq!(render(&scene, [320 * ONE, 240 * ONE], [640, 480]).unwrap(), sky());
    assert_eq!(render(&scene, [0, 0], [1, 1]).unwrap(), sky());
}

#[test]
fn miss_gives_sky_for_any_budget() {
    let scene = Scene {
        march: vec![Sphere::new(v(0, 0, -3 * ONE), ONE, white_diffuse())],
        trace: vec![Sphere::new(v(0, 0, -3 * ONE), ONE, white_diffuse())],
        camera: camera(),
    };
    let away = Ray::new(Vec3::zero(), v(0, 0, ONE));
    for bounce in [0u32, 1, 3] {
        for samples in [1u32, 2, 16] {
            assert_eq!(color(&scene, away, bounce, samples).unwrap(), sky());
        }
    }
}

#[test]
fn cast_is_deterministic() {
    let scene = Scene {
        march: vec![Sphere::new(v(ONE / 2, 0, 0), ONE, tinted(100_000))],
        trace: vec![Sphere::new(v(-ONE / 2, 0, 0), ONE, tinted(200_000))],
        camera: camera(),
    };
    let ray = Ray::new(v(0, ONE / 4, 5 * ONE), v(0, -50_000, -ONE).unit());
    let a = cast_ray(&scene, ray);
    let b = cast_ray(&scene, ray);
    assert_eq!(a, b);
    assert!(a.hit);
}

#[test]
fn traceable_wins_tie() {
    let scene = Scene {
        march: vec![Sphere::new(Vec3::zero(), ONE, tinted(100_000))],
        trace: vec![Sphere::new(Vec3::zero(), ONE, tinted(200_000))],
        camera: camera(),
    };
    let ray = down_z(5 * ONE);
    let m = hit_march(&scene.march, ray);
    let t = hit_trace(&scene.trace, ray);
    assert!(m.hit && t.hit);
    assert_eq!(m.distance, t.distance);
    assert_eq!(cast_ray(&scene, ray).material, tinted(200_000));
}

#[test]
fn nearer_marched_hit_wins() {
    let scene = Scene {
        march: vec![Sphere::new(v(0, 0, ONE), ONE, tinted(100_000))],
        trace: vec![Sphere::new(Vec3::zero(), ONE, tinted(200_000))],
        camera: camera(),
    };
    let c = cast_ray(&scene, down_z(5 * ONE));
    assert_eq!(c.distance, 3 * ONE);
    assert_eq!(c.material, tinted(100_000));
}

#[test]
fn march_converges_on_sphere() {
    let objs = vec![Sphere::new(Vec3::zero(), ONE, white_diffuse())];
    let c = hit_march(&objs, down_z(3 * ONE));
    assert!(c.hit);
    assert_eq!(c.distance, 2 * ONE);
    assert_eq!(c.normal, v(0, 0, ONE));
    let dir = v(-ONE, -ONE, -ONE).unit();
    let c = hit_march(&objs, Ray::new(v(2 * ONE, 2 * ONE, 2 * ONE), dir));
    assert!(c.hit);
    let expected = 3_464_101 - ONE;
    assert!((c.distance - expected).abs() <= 1000);
    let n = c.normal;
    for comp in [n.x, n.y, n.z] {
        assert!((comp - 577_350).abs() <= 2000);
    }
}

#[test]
fn march_misses_past_far_plane() {
    let objs = vec![Sphere::new(v(0, 2 * ONE, -600 * ONE), ONE, white_diffuse())];
    assert!(!hit_march(&objs, down_z(0)).hit);
    let none: Vec<Sphere> = vec![];
    assert!(!hit_march(&none, down_z(0)).hit);
}

#[test]
fn combined_field_takes_first_minimum() {
    let objs = vec![
        Sphere::new(v(3 * ONE, 0, 0), ONE, tinted(1)),
        Sphere::new(v(-3 * ONE, 0, 0), ONE, tinted(2)),
    ];
    assert_eq!(scene_sdf(&objs, Vec3::zero()), (2 * ONE, tinted(1)));
    assert_eq!(scene_sdf(&objs, v(-ONE, 0, 0)), (ONE, tinted(2)));
    assert_eq!(objs[0].sdf(Vec3::zero()), 2 * ONE);
    assert_eq!(March::material(&objs[0]), tinted(1));
}

#[test]
fn trace_rejects_hits_behind_and_prefers_earlier() {
    let behind = vec![Sphere::new(v(0, 0, 9 * ONE), ONE, tinted(1))];
    assert!(!hit_trace(&behind, down_z(5 * ONE)).hit);
    let twins = vec![
        Sphere::new(Vec3::zero(), ONE, tinted(1)),
        Sphere::new(Vec3::zero(), ONE, tinted(2)),
    ];
    assert_eq!(hit_trace(&twins, down_z(5 * ONE)).material, tinted(1));
    let (hit, d, n) = twins[0].trace(down_z(0));
    assert!(hit);
    assert_eq!(d, ONE);
    assert_eq!(n, v(0, 0, -ONE));
    assert_eq!(Trace::material(&twins[1]), tinted(2));
}

#[test]
fn budgets_shrink() {
    assert_eq!(child_budget(3, 16, Lobe::Diffuse), (2, 1));
    assert_eq!(child_budget(3, 16, Lobe::Mirror), (2, 16));
    assert_eq!(child_budget(3, 16, Lobe::Glossy), (2, 8));
    assert_eq!(child_budget(1, 1, Lobe::Glossy), (0, 1));
}

#[test]
fn diffuse_sphere_gains_no_energy() {
    let scene = Scene {
        march: vec![Sphere::new(v(3 * ONE / 2, 0, 0), ONE, white_diffuse())],
        trace: vec![Sphere::new(v(-3 * ONE / 2, 0, 0), ONE, tinted(800_000))],
        camera: camera(),
    };
    for px in [0i64, 100 * ONE, 320 * ONE, 500 * ONE] {
        let r = render(&scene, [px, 240 * ONE], [640, 480]).unwrap();
        for c in [r.x, r.y, r.z] {
            assert!((0..=ONE).contains(&c));
        }
    }
    let r = color(&scene, Ray::new(v(-3 * ONE / 2, 0, 5 * ONE), v(0, 0, -ONE)), 3, 4).unwrap();
    assert_eq!(r.y, 0);
    assert!(r.x >= 0 && r.x <= ONE);
}

#[test]
fn emissive_surface_glows() {
    let lamp = Material { color: v(500_000, 600_000, 700_000), emission: ONE, ..white_diffuse() };
    let scene = Scene {
        march: Vec::<Sphere>::new(),
        trace: vec![Sphere::new(Vec3::zero(), ONE, lamp)],
        camera: camera(),
    };
    assert_eq!(color(&scene, down_z(5 * ONE), 2, 2).unwrap(), v(500_000, 600_000, 700_000));
    assert_eq!(color(&scene, down_z(5 * ONE), 0, 2).unwrap(), v(500_000, 600_000, 700_000));
}

#[test]
fn blend_layers() {
    let m = Material {
        color: v(ONE / 2, ONE / 2, ONE / 2),
        emission: 0,
        metallic: 0,
        roughness: 0,
        transmission: 0,
        specular: ONE / 2,
    };
    let d = v(400_000, 400_000, 400_000);
    let s = v(200_000, 200_000, 200_000);
    assert_eq!(blend(&m, d, s, Vec3::zero()), v(500_000, 500_000, 500_000));
    let metal = Material { metallic: ONE, ..m };
    assert_eq!(blend(&metal, d, s, Vec3::zero()), v(100_000, 100_000, 100_000));
    let hot = Material { emission: 2 * ONE, ..m };
    assert_eq!(blend(&hot, d, s, Vec3::zero()), v(ONE, ONE, ONE));
}

#[test]
fn optics() {
    assert_eq!(reflect(v(ONE, -ONE, 0), v(0, ONE, 0)), v(ONE, ONE, 0));
    assert_eq!(fresnel(ONE, ONE), 0);
    assert_eq!(fresnel(0, ONE), ONE);
    assert_eq!(fresnel(ONE, 3 * ONE / 2), 40_000);
    assert_eq!(refract(v(0, -ONE, 0), v(0, ONE, 0), ONE), Some(v(0, -ONE, 0)));
    assert_eq!(refract(v(ONE, -ONE / 10, 0), v(0, ONE, 0), 3 * ONE / 2), None);
}

#[test]
fn ball_samples_vary_and_stay_inside() {
    let mut seen = Vec::new();
    for _ in 0..200 {
        let p = sample_sphere().unwrap();
        let sq = p.x as i128 * p.x as i128 + p.y as i128 * p.y as i128 + p.z as i128 * p.z as i128;
        assert!(sq < (SCALE as i128) * (SCALE as i128));
        seen.push(p);
    }
    assert!(seen.iter().any(|p| *p != seen[0]));
}

#[test]
fn primary_rays() {
    let r = make_ray(Vec3::zero(), PLANE_120, ONE, [ONE / 2, ONE / 2]);
    assert_eq!(r.direction, v(0, 0, -ONE));
    let r = make_ray(Vec3::zero(), ONE, ONE, [3 * ONE / 2, ONE / 2]);
    // length rounds down to 1414213, then each quotient rounds down
    assert_eq!(r.direction, v(707_107, 0, -707_108));
}

#[test]
fn march_hits_just_past_far_plane_after_one_step() {
    // one step of 512.5 from depth 0 lands on the surface
    let objs = vec![Sphere::new(v(0, 0, -513_500_000), ONE, white_diffuse())];
    let c = hit_march(&objs, down_z(0));
    assert!(c.hit);
    assert_eq!(c.distance, 512_500_000);
    assert_eq!(c.normal, v(0, 0, ONE));
}

#[test]
fn ball_rejection_test() {
    assert_eq!(accept_point(0, 0, 0), Some(Vec3::zero()));
    assert_eq!(accept_point(ONE / 2, -ONE / 2, ONE / 2), Some(v(ONE / 2, -ONE / 2, ONE / 2)));
    assert_eq!(accept_point(ONE, 0, 0), None);
    assert_eq!(accept_point(700_000, 700_000, 200_000), None);
}

#[test]
fn sample_estimates() {
    let xs = vec![v(ONE, 0, 0), v(0, ONE, 0), v(0, 0, ONE), v(ONE, ONE, ONE)];
    assert_eq!(diffuse_average(v(ONE / 2, ONE, 0), &xs), v(250_000, 500_000, 0));
    assert_eq!(specular_average(&xs), v(500_000, 500_000, 500_000));
}

#[test]
fn secondary_rays() {
    let p = v(0, 0, ONE);
    let n = v(0, 0, ONE);
    let d = diffuse_ray(p, n, v(ONE / 2, 0, 0));
    assert_eq!(d.origin, v(0, 0, ONE + 4000));
    assert_eq!(d.direction, v(447_213, 0, 894_427));
    let m = mirror_ray(p, n, v(600_000, 0, -800_000));
    assert_eq!(m.direction, v(600_000, 0, 800_000));
    let g = glossy_ray(p, n, v(0, 0, -ONE), v(0, ONE, 0), ONE);
    assert_eq!(g.direction, v(0, 707_107, 707_107));
}
