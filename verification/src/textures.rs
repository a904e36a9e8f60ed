//! Texture variants.

pub mod image;
pub mod solid;
