//! An offline stochastic ray tracer whose core — bounding-volume hierarchy,
//! ray/scene intersection dispatch and the Monte Carlo integrator — is
//! verified. Geometry is carried in saturating fixed-point scalars (see
//! [`fixed`]), the one exact model of real-valued coordinates available to
//! verified code; rendering front ends convert at the boundary.

pub mod aabb;
pub mod bvh;
pub mod fixed;
pub mod hittable;
pub mod imgbuf;
pub mod integrator;
pub mod interval;
pub mod material;
pub mod materials;
pub mod objects;
pub mod random;
pub mod ray;
pub mod resources;
pub mod scene;
pub mod texture;
pub mod textures;
pub mod trig;
pub mod vector;
