//! Geometry objects that can stand in a scene.

pub mod sphere;
