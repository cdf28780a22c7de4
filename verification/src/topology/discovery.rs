use vstd::prelude::*;
use crate::topology::device::{GPUDevice, GPUDeviceView, all_but, spec_all_but};
use crate::topology::error::TopologyError;
use crate::topology::mesh::{IntraNodeMesh, has_full_peers, is_first_out_of_range, spec_mesh_error};
use crate::topology::naming::{pci_bus_id_hex, spec_hex_bus_id};

verus! {

/// How to discover the GPUs of the local node.
pub struct DiscoveryConfig {
    /// Treat every pair of devices as NVLinked.
    pub assume_full_mesh: bool,
    /// Number of devices to report instead of asking the hardware.
    pub num_devices_override: Option<usize>,
}

impl Default for DiscoveryConfig {
    fn default() -> (r: Self)
        ensures
            r.assume_full_mesh,
            r.num_devices_override is None,
    {
        Self { assume_full_mesh: true, num_devices_override: None }
    }
}

/// Number of devices reported when no override is given and no hardware is queried.
pub const DEFAULT_DEVICE_COUNT: usize = 8;

/// The device count that manual discovery reports.
pub open spec fn spec_manual_count(config: &DiscoveryConfig) -> nat {
    match config.num_devices_override {
        Some(n) => n as nat,
        None => DEFAULT_DEVICE_COUNT as nat,
    }
}

/// Device `id` of manual discovery among `count` devices: the first half of the ids
/// on NUMA node 0, the second half on node 1 (and so on for odd counts), bus id
/// numbered from 1 in hexadecimal, linked to every other device.
pub open spec fn spec_manual_device(count: nat, id: usize) -> GPUDeviceView {
    GPUDeviceView {
        id,
        numa_node: Some(((id as nat) / (if count / 2 >= 1 { count / 2 } else { 1nat })) as usize),
        pci_bus_id: spec_hex_bus_id((id + 1) as usize),
        nvlink_peers: spec_all_but(count, id),
    }
}

/// The devices that manual discovery reports, in id order.
pub open spec fn is_manual_discovery(devs: Seq<GPUDeviceView>, count: nat) -> bool {
    &&& devs.len() == count
    &&& count <= usize::MAX
    &&& forall|k: int| 0 <= k < count ==> #[trigger] devs[k] == spec_manual_device(count, k as usize)
}

/// Lists the devices of the local node without asking the hardware.
pub fn discover_manual(config: &DiscoveryConfig) -> (r: Result<Vec<GPUDevice>, TopologyError>)
    ensures
        r matches Ok(devs) && is_manual_discovery(
            devs@.map_values(|d: GPUDevice| d@),
            spec_manual_count(config),
        ),
{
    let count = match config.num_devices_override {
        Some(n) => n,
        None => DEFAULT_DEVICE_COUNT,
    };
    let half = count / 2;
    let per_numa: usize = if half >= 1 { half } else { 1 };
    let mut devices: Vec<GPUDevice> = Vec::new();
    let mut id: usize = 0;
    while id < count
        invariant
            count == spec_manual_count(config),
            per_numa == (if count / 2 >= 1 { count / 2 } else { 1 }),
            id <= count,
            devices@.len() == id,
            forall|k: int| 0 <= k < id ==> #[trigger] devices@[k]@ == spec_manual_device(count as nat, k as usize),
        decreases count - id,
    {
        let peers = all_but(count, id);
        let dev = GPUDevice {
            id,
            numa_node: Some(id / per_numa),
            pci_bus_id: pci_bus_id_hex(id + 1),
            nvlink_peers: peers,
        };
        devices.push(dev);
        id = id + 1;
    }
    let ghost v = devices@.map_values(|d: GPUDevice| d@);
    assert forall|k: int| 0 <= k < count implies #[trigger] v[k] == spec_manual_device(count as nat, k as usize) by {
        assert(v[k] == devices@[k]@);
    }
    Ok(devices)
}

/// Lists the devices of the local node. Hardware queries are made outside this library;
/// here discovery is manual.
pub fn discover_devices(config: &DiscoveryConfig) -> (r: Result<Vec<GPUDevice>, TopologyError>)
    ensures
        r matches Ok(devs) && is_manual_discovery(
            devs@.map_values(|d: GPUDevice| d@),
            spec_manual_count(config),
        ),
{
    discover_manual(config)
}

/// Discovers the devices and builds the node's mesh; with `assume_full_mesh` every device
/// is made a peer of every other.
pub fn discover_mesh(config: &DiscoveryConfig) -> (r: Result<IntraNodeMesh, TopologyError>)
    ensures
        spec_manual_count(config) == 0 ==> r == Err::<IntraNodeMesh, TopologyError>(
            TopologyError::EmptyMesh,
        ),
        spec_manual_count(config) > 0 ==> (r matches Ok(m) && is_manual_discovery(
            m@,
            spec_manual_count(config),
        )),
{
    let devices = match discover_devices(config) {
        Ok(d) => d,
        Err(e) => return Err(e),
    };
    let ghost count = spec_manual_count(config);
    let ghost v0 = devices@.map_values(|d: GPUDevice| d@);
    if config.assume_full_mesh {
        let count_now = devices.len();
        let mut full: Vec<GPUDevice> = Vec::new();
        let mut i: usize = 0;
        let mut rest = devices;
        let ghost orig = rest@;
        while i < count_now
            invariant
                count_now == count,
                orig.len() == count,
                v0 == orig.map_values(|d: GPUDevice| d@),
                is_manual_discovery(v0, count),
                rest@.len() == count_now - i,
                forall|k: int| 0 <= k < rest@.len() ==> rest@[k] == orig[k + i],
                i <= count_now,
                full@.len() == i,
                forall|k: int| 0 <= k < i ==> #[trigger] full@[k]@ == spec_manual_device(count, k as usize),
            decreases count_now - i,
        {
            let mut dev = rest.remove(0);
            proof {
                assert(dev == orig[i as int]);
                assert(v0[i as int] == orig[i as int]@);
            }
            dev.nvlink_peers = all_but(count_now, dev.id);
            full.push(dev);
            i = i + 1;
        }
        proof {
            let v = full@.map_values(|d: GPUDevice| d@);
            assert forall|k: int| 0 <= k < count implies #[trigger] v[k] == spec_manual_device(count, k as usize) by {
                assert(v[k] == full@[k]@);
            }
            lemma_manual_mesh_accepted(v, count);
        }
        IntraNodeMesh::new(full)
    } else {
        proof {
            lemma_manual_mesh_accepted(v0, count);
        }
        IntraNodeMesh::new(devices)
    }
}

/// `IntraNodeMesh::new` rejects manually discovered devices exactly when there are none.
proof fn lemma_manual_mesh_accepted(devs: Seq<GPUDeviceView>, count: nat)
    requires
        is_manual_discovery(devs, count),
    ensures
        count == 0 ==> spec_mesh_error(devs) == Some(TopologyError::EmptyMesh),
        count > 0 ==> spec_mesh_error(devs) is None,
{
    if count > 0 {
        assert forall|k: int| !is_first_out_of_range(devs, devs.len(), k) by {
            if 0 <= k < devs.len() {
                assert(devs[k] == spec_manual_device(count, k as usize));
            }
        }
    }
}

/// Manually discovered devices are each linked to every other device, so the mesh that
/// `discover_mesh` builds from them has every pair NVLinked.
pub proof fn lemma_manual_discovery_full_peers(devs: Seq<GPUDeviceView>, count: nat)
    requires
        is_manual_discovery(devs, count),
    ensures
        has_full_peers(devs),
{
    assert forall|k: int| 0 <= k < devs.len() implies (#[trigger] devs[k]).id == k
        && devs[k].nvlink_peers == spec_all_but(devs.len(), k as usize) by {
        assert(devs[k] == spec_manual_device(count, k as usize));
    }
}

} // verus!
