//! Material descriptions shared with the shader side.

use vstd::prelude::*;
use vstd::bytes::{spec_u32_from_le_bytes, u32_from_le_bytes};
use vstd::slice::slice_subrange;

verus! {

/// A material as it sits in a binary buffer: a type word, then the fields of
/// the named variant.
pub struct MaterialBinary<'a> {
    pub bytes: &'a [u8],
}

/// The kinds of material the shaders know.
#[derive(Clone, Copy, Debug, PartialEq, Eq, Structural)]
pub enum MaterialType {
    Diffuse,
    Specular,
}

impl MaterialType {
    /// The material kind a type word names.  Only 0 and 1 are defined.
    pub fn from_int(id: u32) -> (r: MaterialType)
        requires
            id == 0 || id == 1,
        ensures
            r == (if id == 0 {
                MaterialType::Diffuse
            } else {
                MaterialType::Specular
            }),
    {
        match id {
            0 => MaterialType::Diffuse,
            _ => MaterialType::Specular,
        }
    }
}

impl<'a> MaterialBinary<'a> {
    /// Read the material's type word; the variant fields are left for a
    /// later checking pass.
    pub fn parse(&self) -> (r: UncheckedMaterial)
        requires
            self.bytes@.len() >= 4,
            spec_u32_from_le_bytes(self.bytes@.subrange(0, 4)) == 0 || spec_u32_from_le_bytes(
                self.bytes@.subrange(0, 4),
            ) == 1,
        ensures
            r.mat_type == (if spec_u32_from_le_bytes(self.bytes@.subrange(0, 4)) == 0 {
                MaterialType::Diffuse
            } else {
                MaterialType::Specular
            }),
            r.diffuse is None,
            r.specular is None,
    {
        let mat_type = MaterialType::from_int(u32_from_le_bytes(slice_subrange(self.bytes, 0, 4)));
        UncheckedMaterial { mat_type, diffuse: None, specular: None }
    }
}

/// A parsed material whose variant fields have not been checked yet.
pub struct UncheckedMaterial {
    pub mat_type: MaterialType,
    pub diffuse: Option<DiffuseMaterial>,
    pub specular: Option<SpecularMaterial>,
}

/// The fields of a diffuse material.
#[derive(Clone, Copy, Debug, PartialEq, Eq, Structural)]
pub struct DiffuseMaterial {}

/// The fields of a specular material.
#[derive(Clone, Copy, Debug, PartialEq, Eq, Structural)]
pub struct SpecularMaterial {}

} // verus!
