//! The recursive ray evaluator: depth cutoff, bounded mirror recursion,
//! reflection delegation, shadowing, and an end-to-end single-sphere
//! scene viewed through the renderer's pinhole camera.

use tiny_raytracer_lib::effects::{Light, Material};
use tiny_raytracer_lib::math::{reflect, Vec3, Vec4};
use tiny_raytracer_lib::rendering::{cast_ray, Renderable, BACKGROUND_B, BACKGROUND_G,
    RAY_EPSILON};
use tiny_raytracer_lib::shapes::Sphere;

fn fx(v: f64) -> i64 {
    (v * 65536.0).round() as i64
}

fn background() -> Vec3 {
    Vec3::new(0, BACKGROUND_G, BACKGROUND_B)
}

fn mirror() -> Material {
    Material::new(
        Vec3::new(65536, 65536, 65536),
        1425,
        Vec4 { x: 0, y: 0, z: 65536, w: 0 },
        fx(1.0),
    )
}

fn matte() -> Material {
    Material::new(
        Vec3::new(fx(0.5), fx(0.4), fx(0.3)),
        10,
        Vec4 { x: 65536, y: 0, z: 0, w: 0 },
        fx(1.0),
    )
}

/// Direction of the primary ray through a pixel of the renderer's camera:
/// 1024x768, a field of view of a right angle, pinhole projection.
fn pixel_direction(x: u32, y: u32) -> Vec3 {
    let width_f = 1024.0f64;
    let height_f = 768.0f64;
    let fov = std::f64::consts::PI / 2.0;
    let screen_width = (fov / 2.0).tan();
    let i = (2.0 * (x as f64 + 0.5) / width_f - 1.0) * screen_width * width_f / height_f;
    let j = -(2.0 * (y as f64 + 0.5) / height_f - 1.0) * screen_width;
    let len = (i * i + j * j + 1.0).sqrt();
    Vec3::new(fx(i / len), fx(j / len), fx(-1.0 / len))
}

#[test]
fn exhausted_depth_returns_the_background() {
    let objects = vec![Renderable::Sphere(Sphere::new(
        Vec3::new(0, 0, fx(-16.0)),
        fx(2.0),
        mirror(),
    ))];
    let lights = vec![Light::new(Vec3::new(fx(20.0), fx(20.0), fx(20.0)), fx(1.5))];
    let color = cast_ray(&Vec3::new(0, 0, 0), &Vec3::new(0, 0, -65536), &objects, &lights, 5);
    assert_eq!(color, background());
}

#[test]
fn empty_scene_returns_the_background() {
    let objects: Vec<Renderable> = vec![];
    let lights: Vec<Light> = vec![];
    let color = cast_ray(&Vec3::new(0, 0, 0), &Vec3::new(0, 0, -65536), &objects, &lights, 0);
    assert_eq!(color, background());
}

#[test]
fn facing_mirrors_terminate_at_the_depth_limit() {
    // two perfect mirrors face each other across the origin; the bounce
    // sequence is cut off by the depth limit and resolves to the
    // background color
    let objects = vec![
        Renderable::Sphere(Sphere::new(Vec3::new(0, 0, fx(-16.0)), fx(2.0), mirror())),
        Renderable::Sphere(Sphere::new(Vec3::new(0, 0, fx(16.0)), fx(2.0), mirror())),
    ];
    let lights: Vec<Light> = vec![];
    let color = cast_ray(&Vec3::new(0, 0, 0), &Vec3::new(0, 0, -65536), &objects, &lights, 0);
    assert_eq!(color, background());
}

#[test]
fn mirror_delegates_to_the_reflected_ray() {
    // a fully reflective sphere with no lights answers exactly what the
    // mirrored ray answers one depth level further down
    let sphere = Sphere::new(Vec3::new(0, 0, fx(-16.0)), fx(2.0), mirror());
    let objects = vec![Renderable::Sphere(sphere)];
    let lights: Vec<Light> = vec![];
    let origin = Vec3::new(0, 0, 0);
    let dir = Vec3::new(0, 0, -65536);

    let direct = cast_ray(&origin, &dir, &objects, &lights, 0);

    let t = sphere.ray_intersect(&origin, &dir).expect("the ray aims at the sphere");
    let hit = origin.add(dir.scale(t));
    let normal = sphere.compute_normal(&hit);
    let reflect_dir = reflect(&dir, &normal).normalize();
    let reflect_origin = if reflect_dir.dot(normal) < 0 {
        hit.sub(normal.scale(RAY_EPSILON))
    } else {
        hit.add(normal.scale(RAY_EPSILON))
    };
    let mirrored = cast_ray(&reflect_origin, &reflect_dir, &objects, &lights, 1);

    assert_eq!(direct, mirrored);
    assert_eq!(direct, background());
}

#[test]
fn occluder_between_light_and_hit_zeroes_the_contribution() {
    let main = Sphere::new(Vec3::new(0, 0, fx(-16.0)), fx(2.0), matte());
    let occluder = Sphere::new(Vec3::new(0, fx(7.0), fx(-7.0)), fx(1.0), matte());
    let lights = vec![Light::new(Vec3::new(0, fx(14.0), 0), fx(1.5))];
    let origin = Vec3::new(0, 0, 0);
    let dir = Vec3::new(0, 0, -65536);

    let open_scene = vec![Renderable::Sphere(main)];
    let lit = cast_ray(&origin, &dir, &open_scene, &lights, 0);
    assert!(lit.x > 0);
    assert!(lit.y > 0);

    let blocked_scene = vec![Renderable::Sphere(main), Renderable::Sphere(occluder)];
    let shadowed = cast_ray(&origin, &dir, &blocked_scene, &lights, 0);
    assert_eq!(shadowed, Vec3::new(0, 0, 0));
    assert_ne!(lit, shadowed);
}

#[test]
fn center_pixel_outside_the_silhouette_is_background() {
    // a single sphere of radius 2 at (-3, 0, -16) under one light: the
    // image center misses its projected disc
    let ivory = Material::new(
        Vec3::new(fx(0.4), fx(0.4), fx(0.3)),
        50,
        Vec4 { x: fx(0.6), y: fx(0.3), z: fx(0.1), w: 0 },
        fx(1.0),
    );
    let objects = vec![Renderable::Sphere(Sphere::new(
        Vec3::new(fx(-3.0), 0, fx(-16.0)),
        fx(2.0),
        ivory,
    ))];
    let lights = vec![Light::new(Vec3::new(fx(20.0), fx(20.0), fx(20.0)), fx(1.5))];
    let dir = pixel_direction(511, 383);
    let color = cast_ray(&Vec3::new(0, 0, 0), &dir, &objects, &lights, 0);
    assert_eq!(color, background());
}

#[test]
fn silhouette_pixel_is_lit_and_differs_from_background() {
    let ivory = Material::new(
        Vec3::new(fx(0.4), fx(0.4), fx(0.3)),
        50,
        Vec4 { x: fx(0.6), y: fx(0.3), z: fx(0.1), w: 0 },
        fx(1.0),
    );
    let objects = vec![Renderable::Sphere(Sphere::new(
        Vec3::new(fx(-3.0), 0, fx(-16.0)),
        fx(2.0),
        ivory,
    ))];
    let lights = vec![Light::new(Vec3::new(fx(20.0), fx(20.0), fx(20.0)), fx(1.5))];
    // this pixel's ray runs close to the sphere's center, well inside
    // the projected disc
    let dir = pixel_direction(440, 384);
    let color = cast_ray(&Vec3::new(0, 0, 0), &dir, &objects, &lights, 0);
    assert_ne!(color, background());
    // the diffuse term contributes: the background's red channel is zero
    assert!(color.x > 0);
}

#[test]
fn glass_sphere_refracts_an_axial_ray_straight_through() {
    // a purely refractive sphere, hit square on: the ray bends nowhere,
    // crosses both surfaces, and carries the background back unweakened
    let glass = Material::new(
        Vec3::new(fx(0.6), fx(0.7), fx(0.8)),
        125,
        Vec4 { x: 0, y: 0, z: 0, w: 65536 },
        fx(1.5),
    );
    let objects = vec![Renderable::Sphere(Sphere::new(
        Vec3::new(0, 0, fx(-16.0)),
        fx(2.0),
        glass,
    ))];
    let lights: Vec<Light> = vec![];
    let color = cast_ray(&Vec3::new(0, 0, 0), &Vec3::new(0, 0, -65536), &objects, &lights, 0);
    assert_eq!(color, background());
}

#[test]
fn overbright_scene_is_tone_clamped_preserving_hue() {
    // a strong light drives the diffuse term past one; the clamp scales
    // all channels down uniformly so the brightest sits exactly at one
    let bright = Material::new(
        Vec3::new(fx(1.0), fx(0.8), fx(0.6)),
        10,
        Vec4 { x: 65536, y: 0, z: 0, w: 0 },
        fx(1.0),
    );
    let objects = vec![Renderable::Sphere(Sphere::new(
        Vec3::new(0, 0, fx(-16.0)),
        fx(2.0),
        bright,
    ))];
    let lights = vec![Light::new(Vec3::new(0, fx(14.0), 0), fx(10.0))];
    let color = cast_ray(&Vec3::new(0, 0, 0), &Vec3::new(0, 0, -65536), &objects, &lights, 0);
    assert_eq!(color, Vec3::new(65536, 52428, 39321));
    assert!(color.x <= 65536 && color.y <= 65536 && color.z <= 65536);
    assert!(color.x >= 0 && color.y >= 0 && color.z >= 0);
}

#[test]
fn light_constructor_keeps_its_fields() {
    let l = Light::new(Vec3::new(1, 2, 3), fx(1.5));
    assert_eq!(l.position, Vec3::new(1, 2, 3));
    assert_eq!(l.intensity, fx(1.5));
}
