//! Lights and surface materials: passive value records that the shading
//! model reads.

use vstd::prelude::*;
use crate::math::{Vec3, Vec4};

verus! {

/// A point light source: a position and a positive intensity weight.
#[derive(Clone, Copy, Debug, PartialEq, Eq, Structural)]
pub struct Light {
    pub position: Vec3,
    pub intensity: i64,
}

impl Light {
    /// Pack a position and an intensity into a light.
    pub fn new(position: Vec3, intensity: i64) -> (r: Light)
        ensures
            r.position == position,
            r.intensity == intensity,
    {
        Light { position, intensity }
    }
}

/// How a surface answers light: its diffuse color, the sharpness of its
/// specular highlight, the albedo weights of the four lighting terms
/// (diffuse, specular, reflection, refraction), and its refractive index.
#[derive(Clone, Copy, Debug, PartialEq, Eq, Structural)]
pub struct Material {
    pub diffuse_color: Vec3,
    pub specular_exponent: u32,
    pub albedo: Vec4,
    pub refractive_index: i64,
}

impl Material {
    /// Pack the four surface parameters into a material.
    pub fn new(diffuse_color: Vec3, specular_exponent: u32, albedo: Vec4, refractive_index: i64) -> (r:
        Material)
        ensures
            r.diffuse_color == diffuse_color,
            r.specular_exponent == specular_exponent,
            r.albedo == albedo,
            r.refractive_index == refractive_index,
    {
        Material { diffuse_color, specular_exponent, albedo, refractive_index }
    }
}

} // verus!
