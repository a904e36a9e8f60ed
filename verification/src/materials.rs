//! Material variants.

pub mod dielectric;
pub mod diffuse_light;
pub mod lambertian;
pub mod metal;
