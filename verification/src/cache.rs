//! Pipeline-cache persistence.
//!
//! The record written between runs holds a schema version, the identity of
//! the device that produced it, and the opaque compiled-pipeline blob.  It is
//! encoded with a fixed binary schema, compressed as one block with the
//! uncompressed size prepended, and validated against the running device
//! before it is trusted; anything stale, corrupt or absent silently becomes a
//! fresh, empty record stamped with the running device's identity.

use vstd::prelude::*;
use vstd::bytes::{
    lemma_auto_spec_u32_to_from_le_bytes, spec_u32_from_le_bytes, spec_u32_to_le_bytes,
    u32_from_le_bytes, u32_to_le_bytes,
};
use vstd::slice::{slice_subrange, slice_to_vec};
use crate::device::DeviceIdentity;

verus! {

/// Schema version this build writes; any other stored version invalidates
/// the cache.
pub const CACHE_SCHEMA_VERSION: u32 = 0;

/// The versioned, device-stamped cache record.
#[derive(Clone, Debug)]
pub struct CacheRecord {
    pub version: u32,
    pub device: Option<DeviceIdentity>,
    pub cache_blob: Vec<u8>,
}

/// Ghost image of a cache record, with the blob as a byte sequence.
pub struct CacheRecordView {
    pub version: u32,
    pub device: Option<DeviceIdentity>,
    pub cache_blob: Seq<u8>,
}

impl View for CacheRecord {
    type V = CacheRecordView;

    open spec fn view(&self) -> CacheRecordView {
        CacheRecordView {
            version: self.version,
            device: self.device,
            cache_blob: self.cache_blob@,
        }
    }
}

impl CacheRecordView {
    /// The blob must leave room for the fixed fields of the encoding and the
    /// compressor's four-byte size prefix.
    pub open spec fn wf(self) -> bool {
        self.cache_blob.len() + 21 <= u32::MAX
    }
}

/// The encoding of the optional device identity: a presence byte, then the
/// three identity words little-endian.
pub open spec fn spec_encode_device(device: Option<DeviceIdentity>) -> Seq<u8> {
    match device {
        None => seq![0u8],
        Some(d) => seq![1u8] + spec_u32_to_le_bytes(d.vendor_id) + spec_u32_to_le_bytes(
            d.device_id,
        ) + spec_u32_to_le_bytes(d.driver_version),
    }
}

/// The fixed binary schema: version word, optional device identity, then the
/// blob prefixed with its length.
pub open spec fn spec_encode(r: CacheRecordView) -> Seq<u8> {
    spec_u32_to_le_bytes(r.version) + spec_encode_device(r.device) + spec_u32_to_le_bytes(
        r.cache_blob.len() as u32,
    ) + r.cache_blob
}

/// Decode the blob-length word and the blob itself, which must fill the rest
/// of the input exactly.
pub open spec fn spec_decode_tail(
    bytes: Seq<u8>,
    pos: int,
    version: u32,
    device: Option<DeviceIdentity>,
) -> Option<CacheRecordView> {
    if bytes.len() < pos + 4 {
        None
    } else {
        let blob_len = spec_u32_from_le_bytes(bytes.subrange(pos, pos + 4)) as int;
        if bytes.len() == pos + 4 + blob_len {
            Some(
                CacheRecordView {
                    version,
                    device,
                    cache_blob: bytes.subrange(pos + 4, bytes.len() as int),
                },
            )
        } else {
            None
        }
    }
}

/// Structural inverse of `spec_encode`: `None` on anything that is not the
/// exact encoding of some record.
pub open spec fn spec_decode(bytes: Seq<u8>) -> Option<CacheRecordView> {
    if bytes.len() < 5 {
        None
    } else {
        let version = spec_u32_from_le_bytes(bytes.subrange(0, 4));
        if bytes[4] == 0u8 {
            spec_decode_tail(bytes, 5, version, None)
        } else if bytes[4] == 1u8 {
            if bytes.len() < 17 {
                None
            } else {
                let device = DeviceIdentity {
                    vendor_id: spec_u32_from_le_bytes(bytes.subrange(5, 9)),
                    device_id: spec_u32_from_le_bytes(bytes.subrange(9, 13)),
                    driver_version: spec_u32_from_le_bytes(bytes.subrange(13, 17)),
                };
                spec_decode_tail(bytes, 17, version, Some(device))
            }
        } else {
            None
        }
    }
}

/// Decoding inverts encoding: the schema is unambiguous.
pub proof fn lemma_decode_encode(v: CacheRecordView)
    requires
        v.wf(),
    ensures
        spec_decode(spec_encode(v)) == Some(v),
{
    lemma_auto_spec_u32_to_from_le_bytes();
    let bytes = spec_encode(v);
    match v.device {
        None => {
            assert(bytes.subrange(0, 4) =~= spec_u32_to_le_bytes(v.version));
            assert(bytes[4] == 0u8);
            assert(bytes.subrange(5, 9) =~= spec_u32_to_le_bytes(v.cache_blob.len() as u32));
            assert(bytes.subrange(9, bytes.len() as int) =~= v.cache_blob);
            assert(spec_decode(bytes) == Some(v));
        },
        Some(d) => {
            assert(bytes.subrange(0, 4) =~= spec_u32_to_le_bytes(v.version));
            assert(bytes[4] == 1u8);
            assert(bytes.subrange(5, 9) =~= spec_u32_to_le_bytes(d.vendor_id));
            assert(bytes.subrange(9, 13) =~= spec_u32_to_le_bytes(d.device_id));
            assert(bytes.subrange(13, 17) =~= spec_u32_to_le_bytes(d.driver_version));
            assert(bytes.subrange(17, 21) =~= spec_u32_to_le_bytes(v.cache_blob.len() as u32));
            assert(bytes.subrange(21, bytes.len() as int) =~= v.cache_blob);
            assert(spec_decode(bytes) == Some(v));
        },
    }
}

/// Serialize a record into the fixed binary schema.
pub fn encode(record: &CacheRecord) -> (r: Vec<u8>)
    requires
        record@.wf(),
    ensures
        r@ == spec_encode(record@),
{
    let mut out = u32_to_le_bytes(record.version);
    match &record.device {
        None => {
            out.push(0u8);
        },
        Some(d) => {
            out.push(1u8);
            let mut word = u32_to_le_bytes(d.vendor_id);
            out.append(&mut word);
            let mut word = u32_to_le_bytes(d.device_id);
            out.append(&mut word);
            let mut word = u32_to_le_bytes(d.driver_version);
            out.append(&mut word);
        },
    }
    let mut len_word = u32_to_le_bytes(record.cache_blob.len() as u32);
    out.append(&mut len_word);
    out.extend_from_slice(record.cache_blob.as_slice());
    proof {
        assert(out@ =~= spec_encode(record@));
    }
    out
}

/// Parse the fixed binary schema; `None` on anything that is not the exact
/// encoding of a record.
pub fn decode(bytes: &[u8]) -> (r: Option<CacheRecord>)
    ensures
        match r {
            Some(rec) => spec_decode(bytes@) == Some(rec@),
            None => spec_decode(bytes@) is None,
        },
{
    if bytes.len() < 5 {
        return None;
    }
    let version = u32_from_le_bytes(slice_subrange(bytes, 0, 4));
    let tag = *vstd::slice::slice_index_get(bytes, 4);
    let (pos, device): (usize, Option<DeviceIdentity>) = if tag == 0u8 {
        (5, None)
    } else if tag == 1u8 {
        if bytes.len() < 17 {
            return None;
        }
        let d = DeviceIdentity {
            vendor_id: u32_from_le_bytes(slice_subrange(bytes, 5, 9)),
            device_id: u32_from_le_bytes(slice_subrange(bytes, 9, 13)),
            driver_version: u32_from_le_bytes(slice_subrange(bytes, 13, 17)),
        };
        (17, Some(d))
    } else {
        return None;
    };
    if bytes.len() < pos + 4 {
        return None;
    }
    let blob_len = u32_from_le_bytes(slice_subrange(bytes, pos, pos + 4)) as usize;
    if bytes.len() - (pos + 4) != blob_len {
        return None;
    }
    let blob = slice_to_vec(slice_subrange(bytes, pos + 4, bytes.len()));
    Some(CacheRecord { version, device, cache_blob: blob })
}

/// What the block compressor produces for a given input; a pure function of
/// the bytes alone.
pub uninterp spec fn spec_compressed(bytes: Seq<u8>) -> Seq<u8>;

/// What decompression recovers from a given stream; `None` on a truncated or
/// corrupt one.
pub uninterp spec fn spec_decompressed(bytes: Seq<u8>) -> Option<Seq<u8>>;

/// Relies on lz4_flex::compress_prepend_size: one compressed block with the
/// uncompressed size prepended as a little-endian u32 (hence the input size
/// bound); its documentation states that decompress_size_prepended recovers
/// the input from it.
#[verifier::external_body]
pub fn compression_algo(bytes: &[u8]) -> (r: Vec<u8>)
    requires
        bytes@.len() <= u32::MAX,
    ensures
        r@ == spec_compressed(bytes@),
        spec_decompressed(r@) == Some(bytes@),
{
    lz4_flex::compress_prepend_size(bytes)
}

/// Relies on lz4_flex::decompress_size_prepended: recovers the block that
/// was compressed, rejecting truncated or corrupt streams instead of
/// panicking.
#[verifier::external_body]
pub fn decompression_algo(bytes: &[u8]) -> (r: Option<Vec<u8>>)
    ensures
        match r {
            Some(v) => spec_decompressed(bytes@) == Some(v@),
            None => spec_decompressed(bytes@) is None,
        },
{
    lz4_flex::decompress_size_prepended(bytes).ok()
}

/// The record a run starts from when nothing stored can be trusted: current
/// schema version, the running device's identity, empty blob.
pub open spec fn spec_fresh_record(id: DeviceIdentity) -> CacheRecordView {
    CacheRecordView {
        version: CACHE_SCHEMA_VERSION,
        device: Some(id),
        cache_blob: Seq::<u8>::empty(),
    }
}

/// A stored record may be trusted only if its schema version is current, it
/// names exactly the running device, and its blob is non-empty.
pub open spec fn spec_record_valid(r: CacheRecordView, id: DeviceIdentity) -> bool {
    &&& r.version == CACHE_SCHEMA_VERSION
    &&& r.device == Some(id)
    &&& r.cache_blob.len() > 0
}

/// What loading decides, given the stored file's bytes (or `None` when there
/// is no file): the stored record when it decompresses, decodes and
/// validates, else a fresh record for the running device.
pub open spec fn spec_load_or_create(stored: Option<Seq<u8>>, id: DeviceIdentity) -> CacheRecordView {
    match stored {
        None => spec_fresh_record(id),
        Some(bytes) => match spec_decompressed(bytes) {
            None => spec_fresh_record(id),
            Some(decompressed) => match spec_decode(decompressed) {
                None => spec_fresh_record(id),
                Some(rec) => if spec_record_valid(rec, id) {
                    rec
                } else {
                    spec_fresh_record(id)
                },
            },
        },
    }
}

/// A fresh record stamped with the running device's identity.
pub fn create_new_cache(id: DeviceIdentity) -> (r: CacheRecord)
    ensures
        r@ == spec_fresh_record(id),
{
    let r = CacheRecord { version: CACHE_SCHEMA_VERSION, device: Some(id), cache_blob: Vec::new() };
    proof {
        assert(r@ =~= spec_fresh_record(id));
    }
    r
}

/// Whether this record may be trusted on the device identified by `id`.
pub fn is_valid_for(record: &CacheRecord, id: DeviceIdentity) -> (r: bool)
    ensures
        r == spec_record_valid(record@, id),
{
    let device_matches = match &record.device {
        Some(d) => d.vendor_id == id.vendor_id && d.device_id == id.device_id && d.driver_version
            == id.driver_version,
        None => false,
    };
    record.version == CACHE_SCHEMA_VERSION && device_matches && record.cache_blob.len() > 0
}

/// Resolve the record a run starts from.  `stored` is the cache file's
/// content, or `None` when the file does not exist; a record that fails to
/// decompress, decode or validate is silently replaced by a fresh one — a
/// stale cache is just a cold cache.
pub fn load_or_create(stored: Option<&[u8]>, id: DeviceIdentity) -> (r: CacheRecord)
    ensures
        r@ == spec_load_or_create(
            match stored {
                Some(b) => Some(b@),
                None => None,
            },
            id,
        ),
{
    match stored {
        None => create_new_cache(id),
        Some(bytes) => match decompression_algo(bytes) {
            None => create_new_cache(id),
            Some(decompressed) => match decode(decompressed.as_slice()) {
                None => create_new_cache(id),
                Some(rec) => if is_valid_for(&rec, id) {
                    rec
                } else {
                    create_new_cache(id)
                },
            },
        },
    }
}

/// The record pipeline compilation starts from: the stored one when the
/// persistent cache is in use (healed to fresh if untrustworthy), else a
/// blank record whose empty blob seeds the cache objects with nothing.
pub fn resolve_initial_record(use_caches: bool, stored: Option<&[u8]>, id: DeviceIdentity) -> (r:
    CacheRecord)
    ensures
        use_caches ==> r@ == spec_load_or_create(
            match stored {
                Some(b) => Some(b@),
                None => None,
            },
            id,
        ),
        !use_caches ==> r@ == (CacheRecordView {
            version: 0,
            device: None,
            cache_blob: Seq::<u8>::empty(),
        }),
{
    if use_caches {
        load_or_create(stored, id)
    } else {
        let r = CacheRecord { version: 0, device: None, cache_blob: Vec::new() };
        proof {
            assert(r@ =~= (CacheRecordView {
                version: 0,
                device: None,
                cache_blob: Seq::<u8>::empty(),
            }));
        }
        r
    }
}

/// Serialize and compress a record for the cache file.  The result both is
/// the compressed image of the record's encoding and decompresses back to
/// that encoding.
pub fn persist_bytes(record: &CacheRecord) -> (r: Vec<u8>)
    requires
        record@.wf(),
    ensures
        r@ == spec_compressed(spec_encode(record@)),
        spec_decompressed(r@) == Some(spec_encode(record@)),
{
    let encoded = encode(record);
    proof {
        lemma_auto_spec_u32_to_from_le_bytes();
    }
    compression_algo(encoded.as_slice())
}

/// Cache round-trip: bytes that decompress to the encoding of a record valid
/// for the running device — such as the bytes `persist_bytes` produces for
/// it — load back as exactly that record, blob and identity untouched.
pub proof fn lemma_cache_round_trip(v: CacheRecordView, stored: Seq<u8>, id: DeviceIdentity)
    requires
        v.wf(),
        spec_record_valid(v, id),
        spec_decompressed(stored) == Some(spec_encode(v)),
    ensures
        spec_load_or_create(Some(stored), id) == v,
{
    lemma_decode_encode(v);
}

/// Cache invalidation: whatever was stored — absent, corrupt, a different
/// schema version, another device, an empty blob — loading returns either a
/// record valid for the running device or the fresh record stamped with it;
/// a stale identity is never handed back.
pub proof fn lemma_cache_invalidation(stored: Option<Seq<u8>>, id: DeviceIdentity)
    ensures
        spec_record_valid(spec_load_or_create(stored, id), id) || spec_load_or_create(stored, id)
            == spec_fresh_record(id),
        spec_load_or_create(stored, id).device == Some(id),
{
}

} // verus!
