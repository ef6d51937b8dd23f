use render_core::material::{MaterialBinary, MaterialType};
use render_core::scene::{
    check_length, check_magic, raw_to_chunks, ChunkType, BIN_CHUNK_CODE, JSON_CHUNK_CODE,
};
use render_core::usage::{BufferUsage, ImageUsage};
use render_core::nsize::NSize;

fn chunk(code: u32, payload: &[u8]) -> Vec<u8> {
    let mut out = Vec::new();
    out.extend_from_slice(&(payload.len() as u32).to_le_bytes());
    out.extend_from_slice(&code.to_le_bytes());
    out.extend_from_slice(payload);
    out
}

#[test]
fn magic_is_gltf() {
    assert!(check_magic(b"glTF rest"));
    assert!(check_magic(b"glTF"));
    assert!(!check_magic(b"glT"));
    assert!(!check_magic(b"GLTF"));
    assert!(!check_magic(b""));
}

#[test]
fn length_field_names_the_whole_file() {
    let mut file = Vec::new();
    file.extend_from_slice(b"glTF");
    file.extend_from_slice(&2u32.to_le_bytes());
    file.extend_from_slice(&16u32.to_le_bytes());
    file.extend_from_slice(&[0; 4]);
    assert_eq!(file.len(), 16);
    assert!(check_length(&file));
    file.push(0);
    assert!(!check_length(&file));
    assert!(!check_length(b"short"));
}

#[test]
fn chunk_codes_resolve() {
    assert_eq!(ChunkType::from_code(JSON_CHUNK_CODE), Some(ChunkType::Json));
    assert_eq!(ChunkType::from_code(BIN_CHUNK_CODE), Some(ChunkType::Bin));
    assert_eq!(ChunkType::from_code(0), None);
}

#[test]
fn body_splits_into_json_and_bin() {
    let mut body = chunk(JSON_CHUNK_CODE, b"{}");
    body.extend_from_slice(&chunk(BIN_CHUNK_CODE, &[1, 2, 3]));
    let (json, bin) = raw_to_chunks(&body).unwrap();
    assert_eq!(json.data, b"{}");
    assert_eq!(bin.data, vec![1, 2, 3]);
}

#[test]
fn later_chunk_of_same_type_wins() {
    let mut body = chunk(JSON_CHUNK_CODE, b"first");
    body.extend_from_slice(&chunk(BIN_CHUNK_CODE, &[1]));
    body.extend_from_slice(&chunk(JSON_CHUNK_CODE, b"second"));
    let (json, _) = raw_to_chunks(&body).unwrap();
    assert_eq!(json.data, b"second");
}

#[test]
fn bad_bodies_are_rejected() {
    // Missing binary chunk.
    assert!(raw_to_chunks(&chunk(JSON_CHUNK_CODE, b"{}")).is_none());
    // Missing JSON chunk.
    assert!(raw_to_chunks(&chunk(BIN_CHUNK_CODE, &[1])).is_none());
    // Unknown chunk type.
    assert!(raw_to_chunks(&chunk(0xABCD, b"x")).is_none());
    // Truncated header.
    assert!(raw_to_chunks(&[1, 2, 3]).is_none());
    // Declared length past the end.
    let mut body = chunk(JSON_CHUNK_CODE, b"{}");
    body.truncate(9);
    assert!(raw_to_chunks(&body).is_none());
}

#[test]
fn material_types_from_ints() {
    assert_eq!(MaterialType::from_int(0), MaterialType::Diffuse);
    assert_eq!(MaterialType::from_int(1), MaterialType::Specular);
}

#[test]
fn material_binary_reads_type_word() {
    let bytes = 1u32.to_le_bytes();
    let binary = MaterialBinary { bytes: &bytes };
    let parsed = binary.parse();
    assert_eq!(parsed.mat_type, MaterialType::Specular);
    assert!(parsed.diffuse.is_none());
    assert!(parsed.specular.is_none());
}

#[test]
fn buffer_usage_builder_tracks_flags() {
    let usage = BufferUsage::default()
        .vertex_buffer(true)
        .transfer_dst(true)
        .uniform_buffer(true)
        .uniform_buffer(false);
    assert!(usage.is_vertex_buffer());
    assert!(usage.is_transfer_dst());
    assert!(!usage.is_uniform_buffer());
    assert!(!usage.is_transfer_src());

    assert!(BufferUsage::preset_fat().is_indirect_buffer());
    assert!(BufferUsage::preset_vertex().is_vertex_buffer());
    assert!(BufferUsage::preset_index().is_index_buffer());
    assert!(BufferUsage::preset_uniform_storage().is_storage_buffer());
    let staging = BufferUsage::preset_staging();
    assert!(staging.is_transfer_src());
    assert!(!staging.is_transfer_dst());
}

#[test]
fn image_usage_builder_tracks_flags() {
    let usage = ImageUsage::default()
        .sampled(true)
        .transfer_dst(true)
        .depth_stencil_attachment(true)
        .depth_stencil_attachment(false);
    assert!(usage.is_sampled());
    assert!(usage.is_transfer_dst());
    assert!(!usage.is_depth_stencil_attachment());
    assert!(!usage.is_color_attachment());
    assert!(!usage.is_storage());
    assert!(!usage.is_transient_attachment());
    assert!(!usage.is_input_attachment());
    assert!(!usage.is_transfer_src());
}

#[test]
fn nsize_records_value_and_size() {
    let n = NSize::new(vec![1u16, 2, 3], 6);
    assert_eq!(n.size(), 6);
    assert_eq!(n.value(), &vec![1u16, 2, 3]);
}

#[test]
fn test_aabb() {}
