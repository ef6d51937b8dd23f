//! Plain-value model of what the device query layer reports: the identity of
//! the GPU, its memory types, and the flush/invalidate granularity for
//! host-visible memory.  The surrounding application fills these in from the
//! GPU API; everything in the library computes on them.

use vstd::prelude::*;

verus! {

/// Memory-property bit for memory local to the GPU.
pub const DEVICE_LOCAL_BIT: u32 = 0x1;

/// Memory-property bit for memory the host can map.
pub const HOST_VISIBLE_BIT: u32 = 0x2;

/// Memory-property bit for host-visible memory that needs no explicit flush.
pub const HOST_COHERENT_BIT: u32 = 0x4;

/// Memory-property bit for host-visible memory cached on the host.
pub const HOST_CACHED_BIT: u32 = 0x8;

/// Whether the running device's encoded API version offers everything the
/// required version introduced — the planner's cue for using one batched
/// bind call instead of one call per resource.
pub fn is_version_supported(device_api_version: u32, required_version: u32) -> (r: bool)
    ensures
        r == (device_api_version >= required_version),
{
    device_api_version >= required_version
}

/// Identifying metadata of the running device: three opaque 32-bit integers,
/// compared only for bitwise equality.
#[derive(Clone, Copy, Debug, PartialEq, Eq, Structural)]
pub struct DeviceIdentity {
    pub vendor_id: u32,
    pub device_id: u32,
    pub driver_version: u32,
}

/// The device facts the allocation planner needs: the property flags of each
/// memory type, in the order the device reports them, and the non-coherent
/// atom size (the granularity of flush/invalidate byte ranges).
#[derive(Clone, Debug)]
pub struct DeviceProfile {
    pub memory_type_flags: Vec<u32>,
    pub atom_size: u64,
}

impl DeviceProfile {
    /// The device reports at most 32 memory types (one bit each in a
    /// requirement mask) and a positive atom size.
    pub open spec fn wf(self) -> bool {
        &&& self.memory_type_flags@.len() <= 32
        &&& self.atom_size >= 1
    }

    /// Memory type `i` can back a resource whose requirement mask is `type_bits`
    /// and offers every property in `properties`.
    pub open spec fn spec_suitable(self, type_bits: u32, properties: u32, i: int) -> bool {
        &&& 0 <= i < self.memory_type_flags@.len()
        &&& (type_bits & (1u32 << (i as u32))) != 0
        &&& (self.memory_type_flags@[i] & properties) == properties
    }

    /// `i` is the first memory type that suits `type_bits` and `properties`.
    pub open spec fn spec_first_suitable(self, type_bits: u32, properties: u32, i: int) -> bool {
        &&& self.spec_suitable(type_bits, properties, i)
        &&& forall|j: int| 0 <= j < i ==> !self.spec_suitable(type_bits, properties, j)
    }

    /// Find the first memory type allowed by `type_bits` whose property flags
    /// cover `properties`; `None` when no type qualifies.
    pub fn find_memory_type(&self, type_bits: u32, properties: u32) -> (r: Option<u32>)
        requires
            self.wf(),
        ensures
            match r {
                Some(i) => self.spec_first_suitable(type_bits, properties, i as int),
                None => forall|j: int| !self.spec_suitable(type_bits, properties, j),
            },
    {
        let count = self.memory_type_flags.len();
        let mut i: usize = 0;
        while i < count
            invariant
                self.wf(),
                count == self.memory_type_flags@.len(),
                i <= count,
                forall|j: int| 0 <= j < i ==> !self.spec_suitable(type_bits, properties, j),
            decreases count - i,
        {
            let type_supported = (type_bits & (1u32 << (i as u32))) != 0;
            let flags = self.memory_type_flags[i];
            let has_properties = (flags & properties) == properties;
            if type_supported && has_properties {
                return Some(i as u32);
            }
            i = i + 1;
        }
        None
    }
}

} // verus!
