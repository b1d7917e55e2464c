//! How a drawn shape is shaded.
use vstd::prelude::*;

verus! {

/// A shape is shaded with a flat colour, or with the texture in slot
/// `texture_index` of the renderer.
#[derive(Copy, Clone, Debug, PartialEq, Eq, Structural)]
pub enum Material {
    Solid,
    Textured { texture_index: u32 },
}

impl Material {
    /// The texture slot the shader samples: slot 0 (the plain white
    /// texture) for a solid material.
    pub fn texture_index(&self) -> (i: u32)
        ensures
            i == match *self {
                Material::Solid => 0u32,
                Material::Textured { texture_index } => texture_index,
            },
    {
        match self {
            Material::Solid => 0,
            Material::Textured { texture_index } => *texture_index,
        }
    }
}

} // verus!
