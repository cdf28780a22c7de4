use vstd::prelude::*;

verus! {

/// Why a topology could not be built.
#[derive(Debug, Clone, Copy, PartialEq, Eq, Structural)]
pub enum TopologyError {
    /// A node mesh needs at least one device.
    EmptyMesh,
    /// A device's id is not below the number of devices of its node.
    DeviceIdOutOfRange { id: usize, device_count: usize },
    /// A torus extent, or the number of devices per node, is zero.
    ZeroExtent,
}

} // verus!
