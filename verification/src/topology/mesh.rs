use vstd::prelude::*;
use crate::topology::device::{GPUDevice, GPUDeviceView, all_but, spec_all_but, spec_ids_below, spec_without};
use crate::topology::error::TopologyError;
use crate::topology::naming::{pci_bus_id_short, spec_short_bus_id};

verus! {

/// The GPUs of one node, fully or partly connected by NVLink.
#[derive(Debug, PartialEq)]
pub struct IntraNodeMesh {
    pub devices: Vec<GPUDevice>,
}

impl View for IntraNodeMesh {
    type V = Seq<GPUDeviceView>;

    open spec fn view(&self) -> Seq<GPUDeviceView> {
        self.devices@.map_values(|d: GPUDevice| d@)
    }
}

/// `k` is the first position in `devs` whose device has id `id`.
pub open spec fn is_first_with_id(devs: Seq<GPUDeviceView>, id: usize, k: int) -> bool {
    &&& 0 <= k < devs.len()
    &&& devs[k].id == id
    &&& forall|j: int| 0 <= j < k ==> devs[j].id != id
}

/// The first position whose device has id `id`, if any.
pub open spec fn spec_find_id(devs: Seq<GPUDeviceView>, id: usize) -> Option<int> {
    if exists|k: int| is_first_with_id(devs, id, k) {
        Some(choose|k: int| is_first_with_id(devs, id, k))
    } else {
        None
    }
}

/// The first device with id `a` lists `b` among its NVLink peers.
pub open spec fn spec_are_nvlinked(devs: Seq<GPUDeviceView>, a: usize, b: usize) -> bool {
    match spec_find_id(devs, a) {
        Some(k) => devs[k].nvlink_peers.contains(b),
        None => false,
    }
}

/// For every pair of distinct ids below the device count, the first is NVLinked to the second.
pub open spec fn spec_all_pairs_nvlinked(devs: Seq<GPUDeviceView>) -> bool {
    forall|i: usize, j: usize|
        i < devs.len() && j < devs.len() && i != j ==> #[trigger] spec_are_nvlinked(devs, i, j)
}

/// `k` is the first position whose device id is not below `count`.
pub open spec fn is_first_out_of_range(devs: Seq<GPUDeviceView>, count: nat, k: int) -> bool {
    &&& 0 <= k < devs.len()
    &&& devs[k].id >= count
    &&& forall|j: int| 0 <= j < k ==> devs[j].id < count
}

/// The error `IntraNodeMesh::new` gives for these devices, if any.
pub open spec fn spec_mesh_error(devs: Seq<GPUDeviceView>) -> Option<TopologyError> {
    if devs.len() == 0 {
        Some(TopologyError::EmptyMesh)
    } else if exists|k: int| is_first_out_of_range(devs, devs.len(), k) {
        let k = choose|k: int| is_first_out_of_range(devs, devs.len(), k);
        Some(TopologyError::DeviceIdOutOfRange { id: devs[k].id, device_count: devs.len() as usize })
    } else {
        None
    }
}

/// The device at position `id` of a synthetic full mesh of `count` devices.
pub open spec fn spec_full_mesh_device(count: nat, id: usize) -> GPUDeviceView {
    GPUDeviceView {
        id,
        numa_node: None,
        pci_bus_id: spec_short_bus_id(id),
        nvlink_peers: spec_all_but(count, id),
    }
}

/// A mesh whose device at each position `k` is the synthetic full-mesh device `k`.
pub open spec fn is_full_mesh(devs: Seq<GPUDeviceView>, count: nat) -> bool {
    &&& devs.len() == count
    &&& count <= usize::MAX
    &&& forall|k: int| 0 <= k < count ==> #[trigger] devs[k] == spec_full_mesh_device(count, k as usize)
}

pub proof fn lemma_first_with_id_unique(devs: Seq<GPUDeviceView>, id: usize, k: int)
    requires
        is_first_with_id(devs, id, k),
    ensures
        spec_find_id(devs, id) == Some(k),
{
    let c = choose|c: int| is_first_with_id(devs, id, c);
    assert(is_first_with_id(devs, id, c));
    if c < k {
        assert(devs[c].id != id);
    } else if c > k {
        assert(devs[k].id != id);
    }
}

pub proof fn lemma_first_out_of_range_unique(devs: Seq<GPUDeviceView>, count: nat, k: int)
    requires
        is_first_out_of_range(devs, count, k),
    ensures
        (choose|c: int| is_first_out_of_range(devs, count, c)) == k,
{
    let c = choose|c: int| is_first_out_of_range(devs, count, c);
    assert(is_first_out_of_range(devs, count, c));
    if c < k {
        assert(devs[c].id < count);
    } else if c > k {
        assert(devs[k].id < count);
    }
}

impl Clone for IntraNodeMesh {
    fn clone(&self) -> (r: Self)
        ensures
            r@ == self@,
    {
        let mut devices: Vec<GPUDevice> = Vec::new();
        let mut i: usize = 0;
        while i < self.devices.len()
            invariant
                i <= self.devices@.len(),
                devices@.len() == i,
                forall|k: int| 0 <= k < i ==> devices@[k]@ == self.devices@[k]@,
            decreases self.devices@.len() - i,
        {
            let d = self.devices[i].clone();
            devices.push(d);
            i = i + 1;
        }
        let r = IntraNodeMesh { devices };
        assert(r@ =~= self@);
        r
    }
}

impl IntraNodeMesh {
    /// Accepts devices whose ids all lie below the number of devices.
    pub fn new(devices: Vec<GPUDevice>) -> (r: Result<Self, TopologyError>)
        ensures
            match spec_mesh_error(devices@.map_values(|d: GPUDevice| d@)) {
                Some(e) => r == Err::<Self, TopologyError>(e),
                None => (r matches Ok(m) && m.devices == devices),
            },
    {
        let ghost v = devices@.map_values(|d: GPUDevice| d@);
        let device_count = devices.len();
        if device_count == 0 {
            return Err(TopologyError::EmptyMesh);
        }
        let mut i: usize = 0;
        while i < device_count
            invariant
                device_count == devices@.len(),
                v == devices@.map_values(|d: GPUDevice| d@),
                i <= device_count,
                forall|j: int| 0 <= j < i ==> v[j].id < device_count,
            decreases device_count - i,
        {
            if devices[i].id >= device_count {
                proof {
                    assert(is_first_out_of_range(v, v.len(), i as int));
                    lemma_first_out_of_range_unique(v, v.len(), i as int);
                }
                return Err(TopologyError::DeviceIdOutOfRange { id: devices[i].id, device_count });
            }
            i = i + 1;
        }
        assert(!exists|k: int| is_first_out_of_range(v, v.len(), k));
        Ok(Self { devices })
    }

    /// `count` devices, each NVLinked to all others, with synthetic bus ids.
    pub fn full_mesh(device_count: usize) -> (r: Result<Self, TopologyError>)
        ensures
            device_count == 0 ==> r == Err::<Self, TopologyError>(TopologyError::EmptyMesh),
            device_count > 0 ==> (r matches Ok(m) && is_full_mesh(m@, device_count as nat)),
    {
        if device_count == 0 {
            return Err(TopologyError::EmptyMesh);
        }
        let mut devices: Vec<GPUDevice> = Vec::new();
        let mut id: usize = 0;
        while id < device_count
            invariant
                id <= device_count,
                devices@.len() == id,
                forall|k: int| 0 <= k < id ==> #[trigger] devices@[k]@ == spec_full_mesh_device(device_count as nat, k as usize),
            decreases device_count - id,
        {
            let peers = all_but(device_count, id);
            let dev = GPUDevice { id, numa_node: None, pci_bus_id: pci_bus_id_short(id), nvlink_peers: peers };
            devices.push(dev);
            id = id + 1;
        }
        let m = Self { devices };
        assert forall|k: int| 0 <= k < device_count implies #[trigger] m@[k] == spec_full_mesh_device(device_count as nat, k as usize) by {
            assert(m@[k] == m.devices@[k]@);
        }
        Ok(m)
    }

    /// The first device with the given id.
    pub fn device(&self, id: usize) -> (r: Option<&GPUDevice>)
        ensures
            match spec_find_id(self@, id) {
                Some(k) => r == Some(&self.devices@[k]),
                None => r is None,
            },
    {
        let mut i: usize = 0;
        while i < self.devices.len()
            invariant
                i <= self.devices@.len(),
                forall|j: int| 0 <= j < i ==> self.devices@[j].id != id,
            decreases self.devices@.len() - i,
        {
            if self.devices[i].id == id {
                proof {
                    assert(is_first_with_id(self@, id, i as int));
                    lemma_first_with_id_unique(self@, id, i as int);
                }
                return Some(&self.devices[i]);
            }
            i = i + 1;
        }
        proof {
            if exists|k: int| is_first_with_id(self@, id, k) {
                let k = choose|k: int| is_first_with_id(self@, id, k);
                assert(self@[k].id == self.devices@[k].id);
            }
        }
        None
    }

    pub fn device_count(&self) -> (r: usize)
        ensures
            r == self@.len(),
    {
        self.devices.len()
    }

    pub fn are_nvlinked(&self, a: usize, b: usize) -> (r: bool)
        ensures
            r == spec_are_nvlinked(self@, a, b),
    {
        match self.device(a) {
            Some(dev) => dev.is_nvlink_peer(b),
            None => false,
        }
    }

    pub fn all_pairs_nvlinked(&self) -> (r: bool)
        ensures
            r == spec_all_pairs_nvlinked(self@),
    {
        let n = self.devices.len();
        let mut i: usize = 0;
        while i < n
            invariant
                n == self@.len(),
                i <= n,
                forall|a: usize, b: usize| a < i && b < n && a != b ==> #[trigger] spec_are_nvlinked(self@, a, b),
            decreases n - i,
        {
            let mut j: usize = 0;
            while j < n
                invariant
                    n == self@.len(),
                    i < n,
                    j <= n,
                    forall|a: usize, b: usize| a < i && b < n && a != b ==> #[trigger] spec_are_nvlinked(self@, a, b),
                    forall|b: usize| b < j && i != b ==> #[trigger] spec_are_nvlinked(self@, i, b),
                decreases n - j,
            {
                if i != j && !self.are_nvlinked(i, j) {
                    return false;
                }
                j = j + 1;
            }
            i = i + 1;
        }
        true
    }
}

/// Each device sits at the position equal to its id and is NVLinked to every other
/// position of the mesh.
pub open spec fn has_full_peers(devs: Seq<GPUDeviceView>) -> bool {
    forall|k: int|
        0 <= k < devs.len() ==> (#[trigger] devs[k]).id == k && devs[k].nvlink_peers == spec_all_but(
            devs.len(),
            k as usize,
        )
}

/// A synthetic full mesh has full peer lists.
pub proof fn lemma_full_mesh_has_full_peers(devs: Seq<GPUDeviceView>, count: nat)
    requires
        is_full_mesh(devs, count),
    ensures
        has_full_peers(devs),
{
    assert forall|k: int| 0 <= k < devs.len() implies (#[trigger] devs[k]).id == k
        && devs[k].nvlink_peers == spec_all_but(devs.len(), k as usize) by {
        assert(devs[k] == spec_full_mesh_device(count, k as usize));
    }
}

/// When every device is linked to all other positions, every pair of distinct ids is NVLinked.
pub proof fn lemma_full_peers_all_pairs_nvlinked(devs: Seq<GPUDeviceView>)
    requires
        has_full_peers(devs),
    ensures
        spec_all_pairs_nvlinked(devs),
{
    assert forall|i: usize, j: usize| i < devs.len() && j < devs.len() && i != j implies #[trigger] spec_are_nvlinked(devs, i, j) by {
        assert(devs[i as int].id == i);
        assert forall|k: int| 0 <= k < i implies devs[k].id != i by {
            assert(devs[k].id == k);
        }
        assert(is_first_with_id(devs, i, i as int));
        lemma_first_with_id_unique(devs, i, i as int);
        let ids = spec_ids_below(devs.len());
        assert(ids[j as int] == j);
        ids.lemma_filter_contains(|p: usize| p != i, j as int);
    }
}

} // verus!
