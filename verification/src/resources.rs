//! Shared, append-only collections of materials and textures, addressed by
//! opaque identifiers so that several objects can reuse one instance and
//! materials can refer to textures without owning them.

use vstd::prelude::*;
use crate::material::Material;
use crate::texture::Texture;

verus! {

/// An identifier for a material: its insertion position, starting at zero.
#[derive(Debug, Clone, Copy, PartialEq, Eq, Structural)]
pub struct MaterialId(pub(crate) usize);

/// An identifier for a texture: its insertion position, starting at zero.
#[derive(Debug, Clone, Copy, PartialEq, Eq, Structural)]
pub struct TextureId(pub(crate) usize);

impl View for MaterialId {
    type V = int;

    /// A material id is modeled by its position.
    closed spec fn view(&self) -> int {
        self.0 as int
    }
}

impl View for TextureId {
    type V = int;

    /// A texture id is modeled by its position.
    closed spec fn view(&self) -> int {
        self.0 as int
    }
}

/// Resources that can be used in a scene.
#[derive(Debug)]
pub struct Resources {
    /// The materials that can be assigned to objects in the scene.
    pub materials: Vec<Material>,
    /// The textures that can be used by materials in the scene.
    pub textures: Vec<Texture>,
}

impl Resources {
    /// Creates an empty resource collection.
    pub fn new() -> (r: Resources)
        ensures
            r.materials@.len() == 0,
            r.textures@.len() == 0,
    {
        Resources { materials: Vec::new(), textures: Vec::new() }
    }

    /// Adds a material to the resources and returns its identifier; the ids
    /// are handed out in insertion order and never reused or invalidated.
    pub fn add_material(&mut self, material: Material) -> (id: MaterialId)
        ensures
            id@ == old(self).materials@.len(),
            final(self).materials@ == old(self).materials@.push(material),
            final(self).textures@ == old(self).textures@,
    {
        let id = MaterialId(self.materials.len());
        self.materials.push(material);
        id
    }

    /// Adds a texture to the resources and returns its identifier; the ids
    /// are handed out in insertion order and never reused or invalidated.
    pub fn add_texture(&mut self, texture: Texture) -> (id: TextureId)
        ensures
            id@ == old(self).textures@.len(),
            final(self).textures@ == old(self).textures@.push(texture),
            final(self).materials@ == old(self).materials@,
    {
        let id = TextureId(self.textures.len());
        self.textures.push(texture);
        id
    }

    /// The material behind an identifier; the caller guarantees that the
    /// identifier came from this collection.
    pub fn material(&self, id: MaterialId) -> (m: &Material)
        requires
            id@ < self.materials@.len(),
        ensures
            *m == self.materials@[id@],
    {
        &self.materials[id.0]
    }

    /// The texture behind an identifier; the caller guarantees that the
    /// identifier came from this collection.
    pub fn texture(&self, id: TextureId) -> (t: &Texture)
        requires
            id@ < self.textures@.len(),
        ensures
            *t == self.textures@[id@],
    {
        &self.textures[id.0]
    }
}

} // verus!
