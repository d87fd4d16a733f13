//! Vector algebra: normalization length, reflection, and refraction,
//! including total internal reflection.

use tiny_raytracer_lib::math::{reflect, refract, Vec3};

fn fx(v: f64) -> i64 {
    (v * 65536.0).round() as i64
}

#[test]
fn dot_and_magnitude_match_exact_values() {
    let v = Vec3::new(fx(3.0), fx(4.0), 0);
    assert_eq!(v.dot(v), fx(25.0));
    assert_eq!(v.magnitude(), fx(5.0));
}

#[test]
fn normalize_yields_unit_length_within_tolerance() {
    // magnitude of the normalized vector stays within a few scaling
    // units of one for vectors of ordinary size
    let cases = vec![
        Vec3::new(fx(3.0), fx(4.0), 0),
        Vec3::new(fx(0.1), fx(0.2), fx(0.3)),
        Vec3::new(1234567, -765432, 222222),
        Vec3::new(fx(-20.0), fx(16.5), fx(8.25)),
    ];
    for v in cases {
        let m = v.normalize().magnitude();
        assert!((m - 65536).abs() <= 8);
    }
}

#[test]
fn normalize_of_axis_vector_is_exact() {
    let v = Vec3::new(0, 0, fx(-14.0));
    assert_eq!(v.normalize(), Vec3::new(0, 0, -65536));
}

#[test]
fn reflect_about_axis_normal_is_exact() {
    let i = Vec3::new(0, 0, -65536);
    let n = Vec3::new(0, 0, 65536);
    assert_eq!(reflect(&i, &n), Vec3::new(0, 0, 65536));
}

#[test]
fn reflect_twice_does_not_restore_the_incident_vector() {
    // the involution of real arithmetic is lost to truncation
    let i = Vec3::new(19661, 45875, -13107);
    let n = Vec3::new(39322, 52429, 0);
    let rr = reflect(&reflect(&i, &n), &n);
    assert_ne!(rr, i);
}

#[test]
fn reflected_projection_negates_the_incident_projection() {
    // for a unit normal, dot(reflect(i, n), n) sits within a few scaling
    // units of -dot(i, n)
    let i = Vec3::new(19661, 45875, -13107);
    let n = Vec3::new(39322, 52429, 0);
    assert_eq!(n.dot(n), 65536);
    let d_reflected = reflect(&i, &n).dot(n);
    let d_incident = i.dot(n);
    assert!((d_reflected + d_incident).abs() <= 32);
}

#[test]
fn refract_returns_zero_on_total_internal_reflection() {
    // leaving a dense medium at a grazing angle: the discriminant turns
    // negative and the zero vector comes back
    let i = Vec3::new(fx(0.8), fx(0.6), 0).normalize();
    let n = Vec3::new(0, 65536, 0);
    assert_eq!(refract(&i, &n, fx(1.5)), Vec3::new(0, 0, 0));
}

#[test]
fn refract_straight_through_is_unbent() {
    let i = Vec3::new(0, -65536, 0);
    let n = Vec3::new(0, 65536, 0);
    assert_eq!(refract(&i, &n, fx(1.5)), Vec3::new(0, -65536, 0));
}
