//! Primitive intersection and the scene fold: misses, exact hit
//! distances, the plane's unfiltered negative parameter, the horizon,
//! and the first-wins tie-break.

use tiny_raytracer_lib::effects::Material;
use tiny_raytracer_lib::math::{Vec3, Vec4};
use tiny_raytracer_lib::rendering::{scene_intersect, Renderable};
use tiny_raytracer_lib::shapes::{Plane, Sphere};

fn fx(v: f64) -> i64 {
    (v * 65536.0).round() as i64
}

fn dull(diffuse: Vec3) -> Material {
    Material::new(diffuse, 10, Vec4 { x: fx(0.9), y: fx(0.1), z: 0, w: 0 }, fx(1.0))
}

#[test]
fn sphere_miss_when_pointing_away() {
    // origin outside the sphere, direction pointing away from it
    let s = Sphere::new(Vec3::new(0, 0, 0), fx(2.0), dull(Vec3::new(fx(0.5), 0, 0)));
    let origin = Vec3::new(0, 0, fx(10.0));
    let dir = Vec3::new(0, 0, 65536);
    assert_eq!(s.ray_intersect(&origin, &dir), None);
}

#[test]
fn sphere_hit_toward_center_is_exact() {
    let s = Sphere::new(Vec3::new(0, 0, fx(-16.0)), fx(2.0), dull(Vec3::new(fx(0.5), 0, 0)));
    let origin = Vec3::new(0, 0, 0);
    let dir = Vec3::new(0, 0, -65536);
    // the ray covers 16 units to the center and stops 2 short of it
    assert_eq!(s.ray_intersect(&origin, &dir), Some(fx(14.0)));
}

#[test]
fn sphere_normal_points_from_center_to_hit() {
    let s = Sphere::new(Vec3::new(0, 0, fx(-16.0)), fx(2.0), dull(Vec3::new(fx(0.5), 0, 0)));
    let hit = Vec3::new(0, 0, fx(-14.0));
    assert_eq!(s.compute_normal(&hit), Vec3::new(0, 0, 65536));
}

#[test]
fn sphere_grazing_inside_reports_far_root() {
    // origin inside the sphere: the near root is behind, the far one ahead
    let s = Sphere::new(Vec3::new(0, 0, 0), fx(2.0), dull(Vec3::new(fx(0.5), 0, 0)));
    let origin = Vec3::new(0, 0, fx(1.0));
    let dir = Vec3::new(0, 0, 65536);
    assert_eq!(s.ray_intersect(&origin, &dir), Some(fx(1.0)));
}

#[test]
fn plane_hit_is_exact() {
    let p = Plane::new(
        Vec3::new(0, 65536, 0),
        Vec3::new(0, fx(-4.0), 0),
        dull(Vec3::new(0, fx(0.5), 0)),
    );
    let origin = Vec3::new(0, 0, 0);
    let down = Vec3::new(0, -65536, 0);
    assert_eq!(p.ray_intersect(&origin, &down), Some(fx(4.0)));
}

#[test]
fn plane_parallel_ray_misses() {
    let p = Plane::new(
        Vec3::new(0, 65536, 0),
        Vec3::new(0, fx(-4.0), 0),
        dull(Vec3::new(0, fx(0.5), 0)),
    );
    let origin = Vec3::new(0, 0, 0);
    let level = Vec3::new(65536, 0, 0);
    assert_eq!(p.ray_intersect(&origin, &level), None);
}

#[test]
fn plane_reports_negative_parameter_behind_origin() {
    // the plane test hands back the raw parameter, so a ray leaving the
    // plane behind it yields a negative distance that callers must defend
    // against
    let p = Plane::new(
        Vec3::new(0, 65536, 0),
        Vec3::new(0, fx(-4.0), 0),
        dull(Vec3::new(0, fx(0.5), 0)),
    );
    let origin = Vec3::new(0, 0, 0);
    let up = Vec3::new(0, 65536, 0);
    assert_eq!(p.ray_intersect(&origin, &up), Some(fx(-4.0)));
}

#[test]
fn scene_reports_nearest_primitive() {
    let near = Sphere::new(Vec3::new(0, 0, fx(-8.0)), fx(1.0), dull(Vec3::new(fx(0.9), 0, 0)));
    let far = Sphere::new(Vec3::new(0, 0, fx(-16.0)), fx(2.0), dull(Vec3::new(0, fx(0.9), 0)));
    let objects = vec![Renderable::Sphere(far), Renderable::Sphere(near)];
    let (hit, _, material) = scene_intersect(
        &Vec3::new(0, 0, 0),
        &Vec3::new(0, 0, -65536),
        &objects,
    )
        .expect("the ray points at both spheres");
    assert_eq!(hit, Vec3::new(0, 0, fx(-7.0)));
    assert_eq!(material.diffuse_color, Vec3::new(fx(0.9), 0, 0));
}

#[test]
fn scene_tie_break_keeps_the_earlier_primitive() {
    let first = Sphere::new(Vec3::new(0, 0, fx(-8.0)), fx(1.0), dull(Vec3::new(fx(0.9), 0, 0)));
    let second = Sphere::new(Vec3::new(0, 0, fx(-8.0)), fx(1.0), dull(Vec3::new(0, fx(0.9), 0)));
    let objects = vec![Renderable::Sphere(first), Renderable::Sphere(second)];
    let (_, _, material) = scene_intersect(
        &Vec3::new(0, 0, 0),
        &Vec3::new(0, 0, -65536),
        &objects,
    )
        .expect("the ray points at both spheres");
    assert_eq!(material.diffuse_color, Vec3::new(fx(0.9), 0, 0));
}

#[test]
fn scene_discards_hits_beyond_the_horizon() {
    let far = Sphere::new(Vec3::new(0, 0, fx(-2000.0)), fx(2.0), dull(Vec3::new(fx(0.5), 0, 0)));
    let objects = vec![Renderable::Sphere(far)];
    assert_eq!(
        scene_intersect(&Vec3::new(0, 0, 0), &Vec3::new(0, 0, -65536), &objects),
        None,
    );
}

#[test]
fn scene_of_nothing_reports_no_hit() {
    let objects: Vec<Renderable> = vec![];
    assert_eq!(
        scene_intersect(&Vec3::new(0, 0, 0), &Vec3::new(0, 0, -65536), &objects),
        None,
    );
}

#[test]
fn renderable_dispatches_to_its_shape() {
    let m = dull(Vec3::new(fx(0.5), 0, 0));
    let s = Sphere::new(Vec3::new(0, 0, fx(-16.0)), fx(2.0), m);
    let r = Renderable::Sphere(s);
    let origin = Vec3::new(0, 0, 0);
    let dir = Vec3::new(0, 0, -65536);
    assert_eq!(r.ray_intersect(&origin, &dir), s.ray_intersect(&origin, &dir));
    assert_eq!(r.material(), s.material());
    assert_eq!(r.material(), m);
    let hit = Vec3::new(0, 0, fx(-14.0));
    assert_eq!(r.compute_normal(&hit), s.compute_normal(&hit));
}

#[test]
fn scene_with_a_plane_reports_its_surface() {
    // a floor below the camera, seen along a straight-down ray
    let floor = Plane::new(
        Vec3::new(0, 65536, 0),
        Vec3::new(0, fx(-4.0), 0),
        dull(Vec3::new(fx(0.2), fx(0.7), fx(0.2))),
    );
    let objects = vec![Renderable::Plane(floor)];
    let (hit, normal, material) = scene_intersect(
        &Vec3::new(0, 0, 0),
        &Vec3::new(0, -65536, 0),
        &objects,
    )
        .expect("the ray points at the floor");
    assert_eq!(hit, Vec3::new(0, fx(-4.0), 0));
    assert_eq!(normal, Vec3::new(0, 65536, 0));
    assert_eq!(material.diffuse_color, Vec3::new(fx(0.2), fx(0.7), fx(0.2)));
}

#[test]
fn constructors_keep_their_fields() {
    let m = Material::new(
        Vec3::new(1, 2, 3),
        50,
        Vec4 { x: 4, y: 5, z: 6, w: 7 },
        fx(1.5),
    );
    assert_eq!(m.diffuse_color, Vec3::new(1, 2, 3));
    assert_eq!(m.specular_exponent, 50);
    assert_eq!(m.albedo, Vec4 { x: 4, y: 5, z: 6, w: 7 });
    assert_eq!(m.refractive_index, fx(1.5));
    let s = Sphere::new(Vec3::new(9, 8, 7), fx(2.0), m);
    assert_eq!(s.center, Vec3::new(9, 8, 7));
    assert_eq!(s.radius, fx(2.0));
    assert_eq!(s.material, m);
    let p = Plane::new(Vec3::new(0, 1, 0), Vec3::new(0, -4, 0), m);
    assert_eq!(p.normal, Vec3::new(0, 1, 0));
    assert_eq!(p.point, Vec3::new(0, -4, 0));
    assert_eq!(p.material, m);
}
