//! Model of an underlying block device, as the plain values the engine
//! reads from it.
//!
//! The device itself lives in the device layer outside this crate; a value
//! of this type carries that layer's answers into the verified logic.  In
//! particular, whether a read-write open of the device would be granted,
//! and whether a destroy of it would succeed, are the layer's decisions,
//! recorded in `open_ok` and `destroy_ok`.

use vstd::prelude::*;

verus! {

/// Plain-value view of one underlying block device.
pub struct BlockDeviceInfo {
    /// Name of the underlying block device (may differ from the child URI).
    pub device_name: String,
    /// Name of the driver providing the device; a child whose device is
    /// provided by the `"nvme"` driver is remote.
    pub driver_name: String,
    /// Size of the device in blocks.
    pub num_blocks: u64,
    /// Size of one block in bytes.
    pub block_len: u64,
    /// Whether the device layer grants a read-write open of this device.
    pub open_ok: bool,
    /// Whether the device layer's destroy of this device succeeds.
    pub destroy_ok: bool,
}

impl BlockDeviceInfo {
    /// The device geometry is sound: blocks are non-empty and the total
    /// byte size fits in a machine word.
    pub open spec fn wf(self) -> bool {
        &&& self.block_len > 0
        &&& self.num_blocks * self.block_len <= u64::MAX
    }

    /// Size of the device in bytes.
    pub open spec fn spec_size_in_bytes(self) -> int {
        self.num_blocks * self.block_len
    }

    /// Size of the device in bytes.
    pub fn size_in_bytes(&self) -> (r: u64)
        requires
            self.wf(),
        ensures
            r == self.spec_size_in_bytes(),
    {
        self.num_blocks * self.block_len
    }
}

/// A descriptor: the claim this nexus holds on an opened device.  Dropping
/// the last descriptor is what lets a device removal complete.
pub struct DeviceDescriptor {
    /// Whether the claim is still held; `close` releases it before the
    /// device is destroyed.
    pub claimed: bool,
}

} // verus!
