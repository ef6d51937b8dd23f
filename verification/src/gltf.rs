//! The parts of the scene-description document the renderer reads.  The
//! application deserializes the JSON chunk into these shapes; everything
//! here is plain data.

use vstd::prelude::*;

verus! {

/// The document's asset header.
#[derive(Clone, Debug)]
pub struct Asset {
    pub generator: String,
    pub version: String,
}

/// The color texture a material samples.
#[derive(Clone, Copy, Debug, PartialEq, Eq, Structural)]
pub struct BaseColorTexture {
    pub index: u32,
}

/// One mesh of the document.
#[derive(Clone, Debug)]
pub struct Mesh {
    pub name: String,
    pub primitives: Vec<Primitive>,
}

/// One primitive of a mesh: its attribute accessors, its index accessor,
/// and optionally its material.
#[derive(Clone, Copy, Debug, PartialEq, Eq, Structural)]
pub struct Primitive {
    pub attributes: Attributes,
    pub indices: u32,
    pub material: Option<u32>,
}

/// The accessors a primitive's vertices are read from.
#[derive(Clone, Copy, Debug, PartialEq, Eq, Structural, Hash)]
pub struct Attributes {
    pub position: u32,
    pub normal: u32,
    pub texcoord_0: Option<u32>,
}

/// One texture: which image it reads and which sampler it uses.
#[derive(Clone, Copy, Debug, PartialEq, Eq, Structural)]
pub struct Texture {
    pub source: u32,
    pub sampler: u32,
}

/// One view into the binary buffer.
#[derive(Clone, Copy, Debug, PartialEq, Eq, Structural)]
pub struct BufferView {
    pub buffer: u32,
    pub byte_length: u32,
    pub byte_offset: Option<u32>,
    pub target: Option<u32>,
}

/// One sampler: its filter constants and wrap modes, as the document's
/// OpenGL-style numbers.
#[derive(Clone, Copy, Debug, PartialEq, Eq, Structural)]
pub struct Sampler {
    pub mag_filter: u32,
    pub min_filter: u32,
    pub wrap_s: Option<u32>,
    pub wrap_t: Option<u32>,
}

/// The image formats a texture may arrive in.
#[derive(Clone, Copy, Debug, PartialEq, Eq, Structural)]
pub enum ImageFormat {
    Jpeg,
    Png,
    Bmp,
    Gif,
    Tiff,
    WebP,
    Unknown,
}

/// The arguments of one indirect draw call.
#[derive(Clone, Copy, Debug, PartialEq, Eq, Structural)]
pub struct IndirectParameters {
    pub index_count: u32,
    pub instance_count: u32,
    pub first_index: u32,
    pub vertex_offset: u32,
    pub first_instance: u32,
}

} // verus!
