//! Scene intersection and the recursive shading evaluator.
//!
//! `scene_intersect` folds over the primitives and keeps the nearest hit
//! below the horizon; `cast_ray` computes per-ray radiance from direct
//! lighting, shadows, and recursive reflection and refraction, bounded by
//! a fixed depth limit.

use vstd::prelude::*;
use crate::effects::{Light, Material};
use crate::fx::{FX_ONE, FX_MAX, spec_add, spec_mul, spec_max, spec_pow, fx_add, fx_mul, fx_pow,
    lemma_mul_zero, lemma_mul_one, lemma_div_channel, lemma_mul_nonneg, lemma_pow_nonneg,
    lemma_div_sign};
use crate::math::{Vec3, Vec4, v_add, v_sub, v_scale, v_div, v_dot, v_magnitude, v_normalize,
    spec_reflect, spec_refract, max, reflect, refract};
use crate::shapes::{Sphere, Plane, spec_sphere_intersect, spec_plane_intersect};

verus! {

/// Recursion bound of the ray evaluator: deeper rays fall back to the
/// background color.
pub const MAX_DEPTH: u8 = 4;

/// Offset along the normal that keeps a secondary ray from immediately
/// re-hitting the surface it starts on (about 0.001).
pub const RAY_EPSILON: i64 = 66;

/// Hits farther than this are treated as misses: the scene's far clip
/// (1000 distance units).
pub const HORIZON: i64 = 65536000;

/// Green channel of the background color (about 0.6).
pub const BACKGROUND_G: i64 = 39322;

/// Blue channel of the background color (about 0.3).
pub const BACKGROUND_B: i64 = 19661;

/// The fixed background color returned for rays that hit nothing.
pub open spec fn background_color() -> Vec3 {
    Vec3 { x: 0, y: BACKGROUND_G, z: BACKGROUND_B }
}

/// The color white, the base of the specular highlight term.
pub open spec fn white_color() -> Vec3 {
    Vec3 { x: FX_ONE, y: FX_ONE, z: FX_ONE }
}

/// Something that can be rendered: a closed set of shape variants, each
/// answering intersection, material, and surface-normal queries.
#[derive(Clone, Copy, Debug, PartialEq, Eq, Structural)]
pub enum Renderable {
    Sphere(Sphere),
    Plane(Plane),
}

/// Ray parameter at which a ray meets the shape, if it does.
pub open spec fn spec_renderable_intersect(obj: Renderable, origin: Vec3, dir: Vec3) -> Option<
    i64,
> {
    match obj {
        Renderable::Sphere(s) => spec_sphere_intersect(s, origin, dir),
        Renderable::Plane(p) => spec_plane_intersect(p, origin, dir),
    }
}

/// Surface normal of the shape at a hit point.
pub open spec fn spec_renderable_normal(obj: Renderable, hit: Vec3) -> Vec3 {
    match obj {
        Renderable::Sphere(s) => v_normalize(v_sub(hit, s.center)),
        Renderable::Plane(p) => v_normalize(p.normal),
    }
}

/// The shape's material.
pub open spec fn spec_renderable_material(obj: Renderable) -> Material {
    match obj {
        Renderable::Sphere(s) => s.material,
        Renderable::Plane(p) => p.material,
    }
}

impl Renderable {
    /// Ray parameter at which the ray meets this shape, or `None` for a miss.
    pub fn ray_intersect(&self, origin: &Vec3, dir: &Vec3) -> (r: Option<i64>)
        ensures
            r == spec_renderable_intersect(*self, *origin, *dir),
    {
        match self {
            Renderable::Sphere(s) => s.ray_intersect(origin, dir),
            Renderable::Plane(p) => p.ray_intersect(origin, dir),
        }
    }

    /// The shape's material, by value.
    pub fn material(&self) -> (r: Material)
        ensures
            r == spec_renderable_material(*self),
    {
        match self {
            Renderable::Sphere(s) => s.material(),
            Renderable::Plane(p) => p.material(),
        }
    }

    /// Surface normal at a hit point on this shape.
    pub fn compute_normal(&self, hit: &Vec3) -> (r: Vec3)
        ensures
            r == spec_renderable_normal(*self, *hit),
    {
        match self {
            Renderable::Sphere(s) => s.compute_normal(hit),
            Renderable::Plane(p) => p.compute_normal(hit),
        }
    }
}

/// The best hit of the prefix of the scene walked so far: the least ray
/// parameter wins, and on an exact tie the earlier primitive is kept.
/// Each entry carries the parameter, the hit point, the normal there, and
/// the material.
pub open spec fn spec_best_hit(objs: Seq<Renderable>, origin: Vec3, dir: Vec3) -> Option<
    (i64, Vec3, Vec3, Material),
>
    decreases objs.len(),
{
    if objs.len() == 0 {
        None
    } else {
        let prev: Option<(i64, Vec3, Vec3, Material)> = spec_best_hit(objs.drop_last(), origin, dir);
        let obj: Renderable = objs.last();
        match spec_renderable_intersect(obj, origin, dir) {
            None => prev,
            Some(t) => {
                let closer: bool = match prev {
                    Some(b) => t < b.0,
                    None => true,
                };
                if closer {
                    let hit: Vec3 = v_add(origin, v_scale(dir, t as int));
                    Some((t, hit, spec_renderable_normal(obj, hit), spec_renderable_material(obj)))
                } else {
                    prev
                }
            },
        }
    }
}

/// The nearest hit of the whole scene, if one lies below the horizon:
/// the hit point, the normal there, and the material.
pub open spec fn spec_scene_intersect(objs: Seq<Renderable>, origin: Vec3, dir: Vec3) -> Option<
    (Vec3, Vec3, Material),
> {
    match spec_best_hit(objs, origin, dir) {
        None => None,
        Some(b) => if b.0 < HORIZON {
            Some((b.1, b.2, b.3))
        } else {
            None
        },
    }
}

/// Walk every primitive and keep the nearest hit; report it only when it
/// lies below the horizon.  Returns the hit point, the surface normal
/// there, and the material of the primitive hit.
pub fn scene_intersect(origin: &Vec3, dir: &Vec3, renders: &Vec<Renderable>) -> (r: Option<
    (Vec3, Vec3, Material),
>)
    ensures
        r == spec_scene_intersect(renders@, *origin, *dir),
{
    let mut best: Option<(i64, Vec3, Vec3, Material)> = None;
    let mut i: usize = 0;
    while i < renders.len()
        invariant
            i <= renders.len(),
            best == spec_best_hit(renders@.subrange(0, i as int), *origin, *dir),
        decreases renders.len() - i,
    {
        let model: &Renderable = &renders[i];
        proof {
            assert(renders@.subrange(0, i as int + 1).drop_last() =~= renders@.subrange(
                0,
                i as int,
            ));
            assert(renders@.subrange(0, i as int + 1).last() == renders@[i as int]);
        }
        match model.ray_intersect(origin, dir) {
            None => {},
            Some(dist_i) => {
                let closer: bool = match best {
                    Some((best_dist, _, _, _)) => dist_i < best_dist,
                    None => true,
                };
                if closer {
                    let hit: Vec3 = origin.add(dir.scale(dist_i));
                    let normal: Vec3 = model.compute_normal(&hit);
                    let material: Material = model.material();
                    best = Some((dist_i, hit, normal, material));
                }
            },
        }
        i = i + 1;
    }
    proof {
        assert(renders@.subrange(0, renders@.len() as int) =~= renders@);
    }
    match best {
        Some((best_dist, hit, normal, material)) => {
            if best_dist < HORIZON {
                Some((hit, normal, material))
            } else {
                None
            }
        },
        None => None,
    }
}

/// Where a secondary ray starts: the hit point nudged off the surface,
/// against the normal when the new direction leaves through the back side.
pub open spec fn spec_offset_origin(hit: Vec3, normal: Vec3, new_dir: Vec3) -> Vec3 {
    if v_dot(new_dir, normal) < 0 {
        v_sub(hit, v_scale(normal, RAY_EPSILON as int))
    } else {
        v_add(hit, v_scale(normal, RAY_EPSILON as int))
    }
}

/// Diffuse and specular intensity gathered from the prefix of the lights
/// walked so far; a light occluded by a nearer hit contributes nothing.
pub open spec fn spec_light_accum(
    lights: Seq<Light>,
    objs: Seq<Renderable>,
    hit: Vec3,
    normal: Vec3,
    dir: Vec3,
    exponent: u32,
) -> (int, int)
    decreases lights.len(),
{
    if lights.len() == 0 {
        (0, 0)
    } else {
        let prev: (int, int) = spec_light_accum(lights.drop_last(), objs, hit, normal, dir, exponent);
        let light: Light = lights.last();
        let to_light: Vec3 = v_sub(light.position, hit);
        let light_dir: Vec3 = v_normalize(to_light);
        let light_dist: int = v_magnitude(to_light);
        let shadow_origin: Vec3 = spec_offset_origin(hit, normal, light_dir);
        let occluded: bool = match spec_scene_intersect(objs, shadow_origin, light_dir) {
            Some(b) => v_magnitude(v_sub(b.0, shadow_origin)) < light_dist,
            None => false,
        };
        if occluded {
            prev
        } else {
            (
                spec_add(
                    prev.0,
                    spec_mul(light.intensity as int, spec_max(0, v_dot(light_dir, normal))),
                ),
                spec_add(
                    prev.1,
                    spec_mul(
                        spec_pow(
                            spec_max(
                                0,
                                v_dot(
                                    v_scale(
                                        spec_reflect(
                                            v_scale(light_dir, -(FX_ONE as int)),
                                            normal,
                                        ),
                                        -(FX_ONE as int),
                                    ),
                                    dir,
                                ),
                            ),
                            exponent as nat,
                        ),
                        light.intensity as int,
                    ),
                ),
            )
        }
    }
}

/// Blend the four lighting terms by the material's albedo weights.
pub open spec fn spec_combine_color(
    material: Material,
    diffuse_intensity: int,
    specular_intensity: int,
    reflect_color: Vec3,
    refract_color: Vec3,
) -> Vec3 {
    v_add(
        v_add(
            v_add(
                v_scale(v_scale(material.diffuse_color, diffuse_intensity), material.albedo.x as int),
                v_scale(v_scale(white_color(), specular_intensity), material.albedo.y as int),
            ),
            v_scale(reflect_color, material.albedo.z as int),
        ),
        v_scale(refract_color, material.albedo.w as int),
    )
}

/// Scale a color down uniformly when its brightest channel tops one, so
/// the hue is kept while no channel clips.
pub open spec fn spec_tone_clamp(color: Vec3) -> Vec3 {
    let maxc: int = spec_max(color.x as int, spec_max(color.y as int, color.z as int));
    if maxc > FX_ONE {
        v_div(color, maxc)
    } else {
        color
    }
}

/// Radiance carried back along a ray: the background for a miss or an
/// exhausted depth budget; otherwise direct lighting shadowed per light,
/// plus recursive reflected and refracted contributions, blended by the
/// material's albedo and tone-clamped.
pub open spec fn spec_cast_ray(
    origin: Vec3,
    dir: Vec3,
    objs: Seq<Renderable>,
    lights: Seq<Light>,
    depth: int,
) -> Vec3
    decreases MAX_DEPTH as int + 1 - depth,
{
    if depth > MAX_DEPTH as int {
        background_color()
    } else {
        match spec_scene_intersect(objs, origin, dir) {
            None => background_color(),
            Some(b) => {
                let hit: Vec3 = b.0;
                let normal: Vec3 = b.1;
                let material: Material = b.2;
                let refract_dir: Vec3 = v_normalize(
                    spec_refract(dir, normal, material.refractive_index as int),
                );
                let refract_origin: Vec3 = spec_offset_origin(hit, normal, refract_dir);
                let refract_color: Vec3 = spec_cast_ray(refract_origin, refract_dir, objs, lights, depth + 1);
                let reflect_dir: Vec3 = v_normalize(spec_reflect(dir, normal));
                let reflect_origin: Vec3 = spec_offset_origin(hit, normal, reflect_dir);
                let reflect_color: Vec3 = spec_cast_ray(reflect_origin, reflect_dir, objs, lights, depth + 1);
                let sums: (int, int) = spec_light_accum(lights, objs, hit, normal, dir, material.specular_exponent);
                spec_tone_clamp(spec_combine_color(material, sums.0, sums.1, reflect_color, refract_color))
            },
        }
    }
}

/// Evaluate one ray against the scene.  Returns the background color when
/// the ray misses everything or the recursion budget is exhausted; the
/// depth limit bounds the recursion through stacked mirrors and
/// dielectrics.
pub fn cast_ray(
    origin: &Vec3,
    direction: &Vec3,
    objects: &Vec<Renderable>,
    lights: &Vec<Light>,
    depth: u8,
) -> (r: Vec3)
    ensures
        r == spec_cast_ray(*origin, *direction, objects@, lights@, depth as int),
        depth > MAX_DEPTH ==> r == background_color(),
    decreases MAX_DEPTH as int + 1 - depth as int,
{
    if depth > MAX_DEPTH {
        return Vec3::new(0, BACKGROUND_G, BACKGROUND_B);
    }
    let (hit, normal, material) = match scene_intersect(origin, direction, objects) {
        Some(val) => val,
        None => {
            return Vec3::new(0, BACKGROUND_G, BACKGROUND_B);
        },
    };

    let refract_dir: Vec3 = refract(direction, &normal, material.refractive_index).normalize();
    let refract_origin: Vec3 = offset_origin(&hit, &normal, &refract_dir);
    let refract_color: Vec3 = cast_ray(&refract_origin, &refract_dir, objects, lights, depth + 1);

    let reflect_dir: Vec3 = reflect(direction, &normal).normalize();
    let reflect_origin: Vec3 = offset_origin(&hit, &normal, &reflect_dir);
    let reflect_color: Vec3 = cast_ray(&reflect_origin, &reflect_dir, objects, lights, depth + 1);

    let mut diffuse_light_intensity: i64 = 0;
    let mut specular_light_intensity: i64 = 0;
    let mut li: usize = 0;
    while li < lights.len()
        invariant
            li <= lights.len(),
            (diffuse_light_intensity as int, specular_light_intensity as int)
                == spec_light_accum(
                lights@.subrange(0, li as int),
                objects@,
                hit,
                normal,
                *direction,
                material.specular_exponent,
            ),
        decreases lights.len() - li,
    {
        let light: &Light = &lights[li];
        proof {
            assert(lights@.subrange(0, li as int + 1).drop_last() =~= lights@.subrange(
                0,
                li as int,
            ));
            assert(lights@.subrange(0, li as int + 1).last() == lights@[li as int]);
        }
        let to_light: Vec3 = light.position.sub(hit);
        let light_direction: Vec3 = to_light.normalize();
        let light_distance: i64 = to_light.magnitude();
        let shadow_origin: Vec3 = offset_origin(&hit, &normal, &light_direction);

        let occluded: bool = match scene_intersect(&shadow_origin, &light_direction, objects) {
            Some((shadow_hit, _, _)) => shadow_hit.sub(shadow_origin).magnitude() < light_distance,
            None => false,
        };
        if !occluded {
            diffuse_light_intensity = fx_add(
                diffuse_light_intensity,
                fx_mul(light.intensity, max(0, light_direction.dot(normal))),
            );
            specular_light_intensity = fx_add(
                specular_light_intensity,
                fx_mul(
                    fx_pow(
                        max(
                            0,
                            reflect(&light_direction.scale(-FX_ONE), &normal).scale(-FX_ONE).dot(
                                *direction,
                            ),
                        ),
                        material.specular_exponent,
                    ),
                    light.intensity,
                ),
            );
        }
        li = li + 1;
    }
    proof {
        assert(lights@.subrange(0, lights@.len() as int) =~= lights@);
    }

    let white: Vec3 = Vec3::new(FX_ONE, FX_ONE, FX_ONE);
    let mut color: Vec3 = material.diffuse_color.scale(diffuse_light_intensity).scale(
        material.albedo.x,
    ).add(white.scale(specular_light_intensity).scale(material.albedo.y)).add(
        reflect_color.scale(material.albedo.z),
    ).add(refract_color.scale(material.albedo.w));

    let max_color: i64 = max(color.x, max(color.y, color.z));
    if max_color > FX_ONE {
        color = color.div(max_color);
    }
    return color;
}

/// Once the depth budget is spent, a ray contributes exactly the fixed
/// background color: together with the decreasing depth measure of
/// `spec_cast_ray` and `cast_ray`, this bounds the recursion through any
/// stack of mirrors or dielectrics.
pub proof fn lemma_depth_exhausted(
    origin: Vec3,
    dir: Vec3,
    objs: Seq<Renderable>,
    lights: Seq<Light>,
    depth: int,
)
    requires
        depth > MAX_DEPTH as int,
    ensures
        spec_cast_ray(origin, dir, objs, lights, depth) == background_color(),
{
}

/// Every channel of an evaluated ray's color lies in range: never above
/// the scalar one (the tone clamp sees to the bright side) and never
/// below the saturation floor.
pub proof fn lemma_cast_ray_channel_bounds(
    origin: Vec3,
    dir: Vec3,
    objs: Seq<Renderable>,
    lights: Seq<Light>,
    depth: int,
)
    ensures
        -(FX_MAX as int) <= spec_cast_ray(origin, dir, objs, lights, depth).x as int <= FX_ONE as int,
        -(FX_MAX as int) <= spec_cast_ray(origin, dir, objs, lights, depth).y as int <= FX_ONE as int,
        -(FX_MAX as int) <= spec_cast_ray(origin, dir, objs, lights, depth).z as int <= FX_ONE as int,
{
    if depth > MAX_DEPTH as int {
    } else {
        match spec_scene_intersect(objs, origin, dir) {
            None => {},
            Some(b) => {
                let hit: Vec3 = b.0;
                let normal: Vec3 = b.1;
                let material: Material = b.2;
                let refract_dir: Vec3 = v_normalize(
                    spec_refract(dir, normal, material.refractive_index as int),
                );
                let refract_color: Vec3 = spec_cast_ray(
                    spec_offset_origin(hit, normal, refract_dir),
                    refract_dir,
                    objs,
                    lights,
                    depth + 1,
                );
                let reflect_dir: Vec3 = v_normalize(spec_reflect(dir, normal));
                let reflect_color: Vec3 = spec_cast_ray(
                    spec_offset_origin(hit, normal, reflect_dir),
                    reflect_dir,
                    objs,
                    lights,
                    depth + 1,
                );
                let sums: (int, int) = spec_light_accum(
                    lights,
                    objs,
                    hit,
                    normal,
                    dir,
                    material.specular_exponent,
                );
                let color: Vec3 = spec_combine_color(
                    material,
                    sums.0,
                    sums.1,
                    reflect_color,
                    refract_color,
                );
                let maxc: int = spec_max(color.x as int, spec_max(color.y as int, color.z as int));
                if maxc > FX_ONE as int {
                    lemma_div_channel(color.x as int, maxc);
                    lemma_div_channel(color.y as int, maxc);
                    lemma_div_channel(color.z as int, maxc);
                }
            },
        }
    }
}

/// A material that only brightens: its diffuse color channels and its
/// four albedo weights are all nonnegative.
pub open spec fn material_well_formed(m: Material) -> bool {
    m.diffuse_color.x >= 0 && m.diffuse_color.y >= 0 && m.diffuse_color.z >= 0 && m.albedo.x >= 0
        && m.albedo.y >= 0 && m.albedo.z >= 0 && m.albedo.w >= 0
}

/// Every primitive of the scene carries a well-formed material.
pub open spec fn scene_well_formed(objs: Seq<Renderable>) -> bool {
    forall|k: int|
        0 <= k < objs.len() ==> material_well_formed(spec_renderable_material(#[trigger] objs[k]))
}

/// Every light has a nonnegative intensity.
pub open spec fn lights_well_formed(lights: Seq<Light>) -> bool {
    forall|k: int| 0 <= k < lights.len() ==> (#[trigger] lights[k]).intensity >= 0
}

/// The material that the scene fold reports always belongs to one of the
/// scene's primitives.
proof fn lemma_best_hit_material(objs: Seq<Renderable>, origin: Vec3, dir: Vec3)
    ensures
        match spec_best_hit(objs, origin, dir) {
            Some(b) => exists|k: int|
                0 <= k < objs.len() && b.3 == spec_renderable_material(#[trigger] objs[k]),
            None => true,
        },
    decreases objs.len(),
{
    if objs.len() > 0 {
        lemma_best_hit_material(objs.drop_last(), origin, dir);
        let prev = spec_best_hit(objs.drop_last(), origin, dir);
        if spec_best_hit(objs, origin, dir) == prev {
            match prev {
                Some(b) => {
                    let k = choose|k: int|
                        0 <= k < objs.drop_last().len() && b.3 == spec_renderable_material(
                            #[trigger] objs.drop_last()[k],
                        );
                    assert(objs[k] == objs.drop_last()[k]);
                },
                None => {},
            }
        } else {
            assert(objs[objs.len() - 1] == objs.last());
        }
    }
}

/// With nonnegative light intensities, the gathered diffuse and specular
/// intensities are nonnegative: lights only brighten.
pub proof fn lemma_light_accum_nonneg(
    lights: Seq<Light>,
    objs: Seq<Renderable>,
    hit: Vec3,
    normal: Vec3,
    dir: Vec3,
    exponent: u32,
)
    requires
        lights_well_formed(lights),
    ensures
        spec_light_accum(lights, objs, hit, normal, dir, exponent).0 >= 0,
        spec_light_accum(lights, objs, hit, normal, dir, exponent).1 >= 0,
    decreases lights.len(),
{
    if lights.len() > 0 {
        assert(lights_well_formed(lights.drop_last())) by {
            assert(forall|k: int|
                0 <= k < lights.drop_last().len() ==> #[trigger] lights.drop_last()[k]
                    == lights[k]);
        }
        lemma_light_accum_nonneg(lights.drop_last(), objs, hit, normal, dir, exponent);
        let light = lights.last();
        assert(lights[lights.len() - 1] == light);
        assert(light.intensity >= 0);
        let light_dir = v_normalize(v_sub(light.position, hit));
        lemma_mul_nonneg(light.intensity as int, spec_max(0, v_dot(light_dir, normal)));
        let base = spec_max(
            0,
            v_dot(
                v_scale(spec_reflect(v_scale(light_dir, -(FX_ONE as int)), normal), -(FX_ONE as int)),
                dir,
            ),
        );
        lemma_pow_nonneg(base, exponent as nat);
        lemma_mul_nonneg(spec_pow(base, exponent as nat), light.intensity as int);
    }
}

/// For a well-formed scene under well-formed lights, the evaluated color
/// never dips below zero in any channel: together with the channel upper
/// bound, every ray answers a color inside the unit cube.
pub proof fn lemma_cast_ray_nonneg(
    origin: Vec3,
    dir: Vec3,
    objs: Seq<Renderable>,
    lights: Seq<Light>,
    depth: int,
)
    requires
        scene_well_formed(objs),
        lights_well_formed(lights),
    ensures
        spec_cast_ray(origin, dir, objs, lights, depth).x >= 0,
        spec_cast_ray(origin, dir, objs, lights, depth).y >= 0,
        spec_cast_ray(origin, dir, objs, lights, depth).z >= 0,
    decreases MAX_DEPTH as int + 1 - depth,
{
    if depth > MAX_DEPTH as int {
    } else {
        match spec_scene_intersect(objs, origin, dir) {
            None => {},
            Some(b) => {
                let hit: Vec3 = b.0;
                let normal: Vec3 = b.1;
                let material: Material = b.2;
                lemma_best_hit_material(objs, origin, dir);
                assert(material_well_formed(material));
                let refract_dir: Vec3 = v_normalize(
                    spec_refract(dir, normal, material.refractive_index as int),
                );
                let refract_color: Vec3 = spec_cast_ray(
                    spec_offset_origin(hit, normal, refract_dir),
                    refract_dir,
                    objs,
                    lights,
                    depth + 1,
                );
                lemma_cast_ray_nonneg(
                    spec_offset_origin(hit, normal, refract_dir),
                    refract_dir,
                    objs,
                    lights,
                    depth + 1,
                );
                let reflect_dir: Vec3 = v_normalize(spec_reflect(dir, normal));
                let reflect_color: Vec3 = spec_cast_ray(
                    spec_offset_origin(hit, normal, reflect_dir),
                    reflect_dir,
                    objs,
                    lights,
                    depth + 1,
                );
                lemma_cast_ray_nonneg(
                    spec_offset_origin(hit, normal, reflect_dir),
                    reflect_dir,
                    objs,
                    lights,
                    depth + 1,
                );
                let sums: (int, int) = spec_light_accum(
                    lights,
                    objs,
                    hit,
                    normal,
                    dir,
                    material.specular_exponent,
                );
                lemma_light_accum_nonneg(lights, objs, hit, normal, dir, material.specular_exponent);
                lemma_mul_nonneg(material.diffuse_color.x as int, sums.0);
                lemma_mul_nonneg(material.diffuse_color.y as int, sums.0);
                lemma_mul_nonneg(material.diffuse_color.z as int, sums.0);
                lemma_mul_nonneg(spec_mul(material.diffuse_color.x as int, sums.0), material.albedo.x as int);
                lemma_mul_nonneg(spec_mul(material.diffuse_color.y as int, sums.0), material.albedo.x as int);
                lemma_mul_nonneg(spec_mul(material.diffuse_color.z as int, sums.0), material.albedo.x as int);
                lemma_mul_nonneg(FX_ONE as int, sums.1);
                lemma_mul_nonneg(spec_mul(FX_ONE as int, sums.1), material.albedo.y as int);
                lemma_mul_nonneg(reflect_color.x as int, material.albedo.z as int);
                lemma_mul_nonneg(reflect_color.y as int, material.albedo.z as int);
                lemma_mul_nonneg(reflect_color.z as int, material.albedo.z as int);
                lemma_mul_nonneg(refract_color.x as int, material.albedo.w as int);
                lemma_mul_nonneg(refract_color.y as int, material.albedo.w as int);
                lemma_mul_nonneg(refract_color.z as int, material.albedo.w as int);
                let color: Vec3 = spec_combine_color(
                    material,
                    sums.0,
                    sums.1,
                    reflect_color,
                    refract_color,
                );
                let maxc: int = spec_max(color.x as int, spec_max(color.y as int, color.z as int));
                if maxc > FX_ONE as int {
                    lemma_div_sign(color.x as int, maxc);
                    lemma_div_sign(color.y as int, maxc);
                    lemma_div_sign(color.z as int, maxc);
                }
            },
        }
    }
}

/// The per-pixel contract of the evaluator: a well-formed scene under
/// well-formed lights renders every ray to a color inside the unit cube,
/// each channel between zero and one.
pub proof fn lemma_cast_ray_color_in_unit_cube(
    origin: Vec3,
    dir: Vec3,
    objs: Seq<Renderable>,
    lights: Seq<Light>,
    depth: int,
)
    requires
        scene_well_formed(objs),
        lights_well_formed(lights),
    ensures
        0 <= spec_cast_ray(origin, dir, objs, lights, depth).x <= FX_ONE,
        0 <= spec_cast_ray(origin, dir, objs, lights, depth).y <= FX_ONE,
        0 <= spec_cast_ray(origin, dir, objs, lights, depth).z <= FX_ONE,
{
    lemma_cast_ray_nonneg(origin, dir, objs, lights, depth);
    lemma_cast_ray_channel_bounds(origin, dir, objs, lights, depth);
}

/// The albedo of a perfect mirror: full weight on the reflection term and
/// none on the diffuse, specular, and refraction terms.
pub open spec fn mirror_albedo() -> Vec4 {
    Vec4 { x: 0, y: 0, z: FX_ONE, w: 0 }
}

/// With no lights in the scene, a ray that hits a perfectly reflective
/// surface answers exactly what the mirrored ray answers one depth level
/// further down: reflection delegates to the recursive evaluation.
pub proof fn lemma_mirror_delegates(
    origin: Vec3,
    dir: Vec3,
    objs: Seq<Renderable>,
    lights: Seq<Light>,
    depth: int,
)
    requires
        lights.len() == 0,
        depth <= MAX_DEPTH as int,
        match spec_scene_intersect(objs, origin, dir) {
            Some(b) => b.2.albedo == mirror_albedo(),
            None => true,
        },
    ensures
        match spec_scene_intersect(objs, origin, dir) {
            Some(b) => spec_cast_ray(origin, dir, objs, lights, depth) == spec_cast_ray(
                spec_offset_origin(b.0, b.1, v_normalize(spec_reflect(dir, b.1))),
                v_normalize(spec_reflect(dir, b.1)),
                objs,
                lights,
                depth + 1,
            ),
            None => true,
        },
{
    match spec_scene_intersect(objs, origin, dir) {
        None => {},
        Some(b) => {
            let hit: Vec3 = b.0;
            let normal: Vec3 = b.1;
            let material: Material = b.2;
            let refract_dir: Vec3 = v_normalize(
                spec_refract(dir, normal, material.refractive_index as int),
            );
            let refract_color: Vec3 = spec_cast_ray(
                spec_offset_origin(hit, normal, refract_dir),
                refract_dir,
                objs,
                lights,
                depth + 1,
            );
            let reflect_dir: Vec3 = v_normalize(spec_reflect(dir, normal));
            let reflect_origin: Vec3 = spec_offset_origin(hit, normal, reflect_dir);
            let reflect_color: Vec3 = spec_cast_ray(reflect_origin, reflect_dir, objs, lights, depth + 1);
            lemma_cast_ray_channel_bounds(reflect_origin, reflect_dir, objs, lights, depth + 1);
            assert(spec_light_accum(lights, objs, hit, normal, dir, material.specular_exponent)
                == (0int, 0int));
            lemma_mul_zero(material.diffuse_color.x as int);
            lemma_mul_zero(material.diffuse_color.y as int);
            lemma_mul_zero(material.diffuse_color.z as int);
            lemma_mul_zero(FX_ONE as int);
            lemma_mul_zero(0);
            lemma_mul_zero(refract_color.x as int);
            lemma_mul_zero(refract_color.y as int);
            lemma_mul_zero(refract_color.z as int);
            lemma_mul_one(reflect_color.x as int);
            lemma_mul_one(reflect_color.y as int);
            lemma_mul_one(reflect_color.z as int);
            let color: Vec3 = spec_combine_color(material, 0, 0, reflect_color, refract_color);
            assert(color == reflect_color);
            assert(spec_tone_clamp(color) == reflect_color);
        },
    }
}

/// Nudge a secondary ray's start off the surface, against the normal when
/// the new direction leaves through the back side.
fn offset_origin(hit: &Vec3, normal: &Vec3, new_dir: &Vec3) -> (r: Vec3)
    ensures
        r == spec_offset_origin(*hit, *normal, *new_dir),
{
    if new_dir.dot(*normal) < 0 {
        hit.sub(normal.scale(RAY_EPSILON))
    } else {
        hit.add(normal.scale(RAY_EPSILON))
    }
}

} // verus!
