use render_core::cache::{
    create_new_cache, decode, decompression_algo, encode, is_valid_for, load_or_create,
    persist_bytes, CacheRecord, CACHE_SCHEMA_VERSION,
};
use render_core::device::DeviceIdentity;

fn identity() -> DeviceIdentity {
    DeviceIdentity {
        vendor_id: 0x10DE,
        device_id: 0x2684,
        driver_version: 550,
    }
}

fn other_identity() -> DeviceIdentity {
    DeviceIdentity {
        vendor_id: 0x1002,
        device_id: 0x744C,
        driver_version: 301,
    }
}

#[test]
fn missing_file_gives_fresh_record() {
    let rec = load_or_create(None, identity());
    assert_eq!(rec.version, CACHE_SCHEMA_VERSION);
    assert_eq!(rec.device, Some(identity()));
    assert!(rec.cache_blob.is_empty());
}

#[test]
fn stored_record_round_trips() {
    let rec = CacheRecord {
        version: CACHE_SCHEMA_VERSION,
        device: Some(identity()),
        cache_blob: vec![0xAA, 0xBB],
    };
    let stored = persist_bytes(&rec);
    let loaded = load_or_create(Some(&stored), identity());
    assert_eq!(loaded.version, CACHE_SCHEMA_VERSION);
    assert_eq!(loaded.device, Some(identity()));
    assert_eq!(loaded.cache_blob, vec![0xAA, 0xBB]);
}

#[test]
fn codec_round_trip_is_byte_identical() {
    let rec = CacheRecord {
        version: CACHE_SCHEMA_VERSION,
        device: Some(identity()),
        cache_blob: (0..=255u8).collect(),
    };
    let stored = persist_bytes(&rec);
    let decompressed = decompression_algo(&stored).unwrap();
    let decoded = decode(&decompressed).unwrap();
    assert_eq!(decoded.version, rec.version);
    assert_eq!(decoded.device, rec.device);
    assert_eq!(decoded.cache_blob, rec.cache_blob);
}

#[test]
fn version_mismatch_is_discarded() {
    let rec = CacheRecord {
        version: CACHE_SCHEMA_VERSION.wrapping_add(1),
        device: Some(identity()),
        cache_blob: vec![1, 2, 3],
    };
    let stored = persist_bytes(&rec);
    let loaded = load_or_create(Some(&stored), identity());
    assert_eq!(loaded.device, Some(identity()));
    assert!(loaded.cache_blob.is_empty());
}

#[test]
fn device_mismatch_is_discarded() {
    let rec = CacheRecord {
        version: CACHE_SCHEMA_VERSION,
        device: Some(other_identity()),
        cache_blob: vec![1, 2, 3],
    };
    let stored = persist_bytes(&rec);
    let loaded = load_or_create(Some(&stored), identity());
    // The stale identity is never handed back.
    assert_eq!(loaded.device, Some(identity()));
    assert!(loaded.cache_blob.is_empty());
}

#[test]
fn empty_blob_is_discarded() {
    let rec = CacheRecord {
        version: CACHE_SCHEMA_VERSION,
        device: Some(identity()),
        cache_blob: vec![],
    };
    let stored = persist_bytes(&rec);
    let loaded = load_or_create(Some(&stored), identity());
    assert_eq!(loaded.device, Some(identity()));
    assert!(loaded.cache_blob.is_empty());
}

#[test]
fn absent_device_is_discarded() {
    let rec = CacheRecord {
        version: CACHE_SCHEMA_VERSION,
        device: None,
        cache_blob: vec![1],
    };
    let stored = persist_bytes(&rec);
    let loaded = load_or_create(Some(&stored), identity());
    assert_eq!(loaded.device, Some(identity()));
    assert!(loaded.cache_blob.is_empty());
}

#[test]
fn corrupt_stream_is_discarded() {
    let loaded = load_or_create(Some(&[0xDE, 0xAD, 0xBE, 0xEF, 0x00]), identity());
    assert_eq!(loaded.version, CACHE_SCHEMA_VERSION);
    assert_eq!(loaded.device, Some(identity()));
    assert!(loaded.cache_blob.is_empty());

    let rec = CacheRecord {
        version: CACHE_SCHEMA_VERSION,
        device: Some(identity()),
        cache_blob: vec![9; 100],
    };
    let mut stored = persist_bytes(&rec);
    stored.truncate(stored.len() / 2);
    let loaded = load_or_create(Some(&stored), identity());
    assert!(loaded.cache_blob.is_empty());
}

#[test]
fn encoding_layout_is_fixed() {
    let rec = CacheRecord {
        version: 7,
        device: Some(DeviceIdentity {
            vendor_id: 1,
            device_id: 2,
            driver_version: 3,
        }),
        cache_blob: vec![0xCC],
    };
    let bytes = encode(&rec);
    let expected = [
        7, 0, 0, 0, // version
        1, // device present
        1, 0, 0, 0, // vendor
        2, 0, 0, 0, // device
        3, 0, 0, 0, // driver
        1, 0, 0, 0, // blob length
        0xCC, // blob
    ];
    assert_eq!(bytes, expected);

    let no_device = CacheRecord {
        version: 0,
        device: None,
        cache_blob: vec![],
    };
    let bytes = encode(&no_device);
    assert_eq!(bytes, [0, 0, 0, 0, 0, 0, 0, 0, 0]);
}

#[test]
fn decode_rejects_malformed_input() {
    assert!(decode(&[]).is_none());
    assert!(decode(&[0, 0, 0, 0]).is_none());
    // Unknown presence tag.
    assert!(decode(&[0, 0, 0, 0, 2, 0, 0, 0, 0]).is_none());
    // Trailing garbage after the declared blob.
    assert!(decode(&[0, 0, 0, 0, 0, 0, 0, 0, 0, 0xFF]).is_none());
    // Declared blob longer than the data.
    assert!(decode(&[0, 0, 0, 0, 0, 9, 0, 0, 0]).is_none());
}

#[test]
fn validity_checks_all_three_conditions() {
    let mut rec = create_new_cache(identity());
    assert!(!is_valid_for(&rec, identity())); // empty blob
    rec.cache_blob.push(1);
    assert!(is_valid_for(&rec, identity()));
    assert!(!is_valid_for(&rec, other_identity()));
    rec.version = rec.version.wrapping_add(1);
    assert!(!is_valid_for(&rec, identity()));
}
