//! The binary scene container: a magic header followed by length-prefixed,
//! type-tagged chunks, of which a scene needs exactly one JSON chunk and one
//! binary buffer chunk.

use vstd::prelude::*;
use vstd::bytes::{spec_u32_from_le_bytes, u32_from_le_bytes};
use vstd::slice::{slice_index_get, slice_subrange, slice_to_vec};

verus! {

/// Chunk type code marking the JSON document chunk.
pub const JSON_CHUNK_CODE: u32 = 0x4E4F534A;

/// Chunk type code marking the binary buffer chunk.
pub const BIN_CHUNK_CODE: u32 = 0x004E4942;

/// The kinds of chunk the container may carry.
#[derive(Clone, Copy, Debug, PartialEq, Eq, Structural)]
pub enum ChunkType {
    Json,
    Bin,
}

impl ChunkType {
    /// The chunk kind a type code names, if any.
    pub fn from_code(code: u32) -> (r: Option<ChunkType>)
        ensures
            r == (if code == JSON_CHUNK_CODE {
                Some(ChunkType::Json)
            } else if code == BIN_CHUNK_CODE {
                Some(ChunkType::Bin)
            } else {
                None
            }),
    {
        if code == JSON_CHUNK_CODE {
            Some(ChunkType::Json)
        } else if code == BIN_CHUNK_CODE {
            Some(ChunkType::Bin)
        } else {
            None
        }
    }
}

/// One chunk's payload.
#[derive(Clone, Debug)]
pub struct Chunk {
    pub data: Vec<u8>,
}

/// One mesh of the prepared scene.
#[derive(Clone, Debug)]
pub struct Mesh {
    pub id: u32,
    pub primitives: Vec<Primitive>,
}

/// One primitive: how many indices and vertices it draws.
#[derive(Clone, Copy, Debug, PartialEq, Eq, Structural)]
pub struct Primitive {
    pub indices: u32,
    pub vertices: u32,
}

/// The container's magic: the bytes of "glTF".
pub open spec fn spec_magic_ok(bytes: Seq<u8>) -> bool {
    &&& bytes.len() >= 4
    &&& bytes[0] == 0x67u8
    &&& bytes[1] == 0x6Cu8
    &&& bytes[2] == 0x54u8
    &&& bytes[3] == 0x46u8
}

/// Whether the file starts with the container's magic.
pub fn check_magic(bytes: &[u8]) -> (r: bool)
    ensures
        r == spec_magic_ok(bytes@),
{
    bytes.len() >= 4 && *slice_index_get(bytes, 0) == 0x67u8 && *slice_index_get(bytes, 1)
        == 0x6Cu8 && *slice_index_get(bytes, 2) == 0x54u8 && *slice_index_get(bytes, 3) == 0x46u8
}

/// The header's length field, at bytes 8..12, names the file's own length.
pub open spec fn spec_length_ok(bytes: Seq<u8>) -> bool {
    &&& bytes.len() >= 12
    &&& spec_u32_from_le_bytes(bytes.subrange(8, 12)) == bytes.len() as u32
}

/// Whether the header's recorded length matches the data handed in.
pub fn check_length(bytes: &[u8]) -> (r: bool)
    ensures
        r == spec_length_ok(bytes@),
{
    if bytes.len() < 12 {
        return false;
    }
    u32_from_le_bytes(slice_subrange(bytes, 8, 12)) == bytes.len() as u32
}

/// The chunk walk: each chunk is a length word, a type word and that many
/// payload bytes; a later chunk of the same type replaces an earlier one.
/// The walk fails on a truncated chunk, an unknown type word, or when either
/// the JSON or the binary chunk is missing at the end.
pub open spec fn spec_chunk_walk(
    bytes: Seq<u8>,
    json: Option<Seq<u8>>,
    bin: Option<Seq<u8>>,
) -> Option<(Seq<u8>, Seq<u8>)>
    decreases bytes.len(),
{
    if bytes.len() == 0 {
        match (json, bin) {
            (Some(j), Some(b)) => Some((j, b)),
            _ => None,
        }
    } else if bytes.len() < 8 {
        None
    } else {
        let chunk_len = spec_u32_from_le_bytes(bytes.subrange(0, 4)) as int;
        let type_code = spec_u32_from_le_bytes(bytes.subrange(4, 8));
        if bytes.len() < 8 + chunk_len {
            None
        } else {
            let data = bytes.subrange(8, 8 + chunk_len);
            let rest = bytes.skip(8 + chunk_len);
            if type_code == JSON_CHUNK_CODE {
                spec_chunk_walk(rest, Some(data), bin)
            } else if type_code == BIN_CHUNK_CODE {
                spec_chunk_walk(rest, json, Some(data))
            } else {
                None
            }
        }
    }
}

/// What splitting a container body into its two chunks yields.
pub open spec fn spec_raw_to_chunks(bytes: Seq<u8>) -> Option<(Seq<u8>, Seq<u8>)> {
    spec_chunk_walk(bytes, None, None)
}

/// The payloads of an optional chunk buffer.
pub open spec fn spec_opt_bytes(o: Option<Vec<u8>>) -> Option<Seq<u8>> {
    match o {
        Some(v) => Some(v@),
        None => None,
    }
}

/// Split a container body (everything after the 12-byte header) into its
/// JSON chunk and its binary buffer chunk.  `None` on a truncated or
/// unknown chunk, or when either chunk is missing.
pub fn raw_to_chunks(bytes: &[u8]) -> (r: Option<(Chunk, Chunk)>)
    ensures
        match r {
            Some(pair) => spec_raw_to_chunks(bytes@) == Some((pair.0.data@, pair.1.data@)),
            None => spec_raw_to_chunks(bytes@) is None,
        },
{
    let mut json: Option<Vec<u8>> = None;
    let mut bin: Option<Vec<u8>> = None;
    let mut rest: &[u8] = bytes;
    while rest.len() > 0
        invariant
            spec_chunk_walk(rest@, spec_opt_bytes(json), spec_opt_bytes(bin)) == spec_raw_to_chunks(
                bytes@,
            ),
        decreases rest@.len(),
    {
        if rest.len() < 8 {
            return None;
        }
        let chunk_len = u32_from_le_bytes(slice_subrange(rest, 0, 4)) as usize;
        let type_code = u32_from_le_bytes(slice_subrange(rest, 4, 8));
        if rest.len() - 8 < chunk_len {
            return None;
        }
        let data = slice_to_vec(slice_subrange(rest, 8, 8 + chunk_len));
        if type_code == JSON_CHUNK_CODE {
            json = Some(data);
        } else if type_code == BIN_CHUNK_CODE {
            bin = Some(data);
        } else {
            return None;
        }
        rest = slice_subrange(rest, 8 + chunk_len, rest.len());
    }
    match (json, bin) {
        (Some(j), Some(b)) => Some((Chunk { data: j }, Chunk { data: b })),
        _ => None,
    }
}

} // verus!
