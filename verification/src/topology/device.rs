use vstd::prelude::*;
use crate::topology::naming::{pci_bus_id_short, spec_short_bus_id};

verus! {

/// One GPU of a node: its local id, NUMA node, PCI bus id and the local ids of the
/// GPUs it reaches over NVLink.
#[derive(Debug, PartialEq)]
pub struct GPUDevice {
    pub id: usize,
    pub numa_node: Option<usize>,
    pub pci_bus_id: String,
    pub nvlink_peers: Vec<usize>,
}

/// The mathematical value of a [`GPUDevice`].
pub struct GPUDeviceView {
    pub id: usize,
    pub numa_node: Option<usize>,
    pub pci_bus_id: Seq<char>,
    pub nvlink_peers: Seq<usize>,
}

impl View for GPUDevice {
    type V = GPUDeviceView;

    open spec fn view(&self) -> GPUDeviceView {
        GPUDeviceView {
            id: self.id,
            numa_node: self.numa_node,
            pci_bus_id: self.pci_bus_id@,
            nvlink_peers: self.nvlink_peers@,
        }
    }
}

impl Clone for GPUDevice {
    fn clone(&self) -> (r: Self)
        ensures
            r@ == self@,
    {
        let peers = self.nvlink_peers.clone();
        assert(peers@ =~= self.nvlink_peers@);
        GPUDevice {
            id: self.id,
            numa_node: self.numa_node,
            pci_bus_id: self.pci_bus_id.clone(),
            nvlink_peers: peers,
        }
    }
}

/// The ids `0..count` in increasing order.
pub open spec fn spec_ids_below(count: nat) -> Seq<usize> {
    Seq::new(count, |p: int| p as usize)
}

/// The elements of `s` other than `id`, in order.
pub open spec fn spec_without(s: Seq<usize>, id: usize) -> Seq<usize> {
    s.filter(|p: usize| p != id)
}

/// The ids `0..count` in increasing order, without `id`.
pub open spec fn spec_all_but(count: nat, id: usize) -> Seq<usize> {
    spec_without(spec_ids_below(count), id)
}

/// Builds the ids `0..count` without `id`, in increasing order.
pub fn all_but(count: usize, id: usize) -> (r: Vec<usize>)
    ensures
        r@ == spec_all_but(count as nat, id),
{
    let mut peers: Vec<usize> = Vec::new();
    let mut p: usize = 0;
    let ghost all = spec_ids_below(count as nat);
    while p < count
        invariant
            p <= count,
            all == spec_ids_below(count as nat),
            peers@ == spec_without(all.take(p as int), id),
        decreases count - p,
    {
        assert(all.take(p as int + 1).drop_last() =~= all.take(p as int));
        reveal_with_fuel(Seq::filter, 1);
        if p != id {
            peers.push(p);
        }
        p = p + 1;
    }
    assert(all.take(count as int) =~= all);
    peers
}

impl GPUDevice {
    pub fn new(id: usize, numa_node: Option<usize>, pci_bus_id: &str, nvlink_peers: Vec<usize>) -> (r: Self)
        ensures
            r.id == id,
            r.numa_node == numa_node,
            r.pci_bus_id@ == pci_bus_id@,
            r.nvlink_peers@ == nvlink_peers@,
    {
        Self { id, numa_node, pci_bus_id: String::from_str(pci_bus_id), nvlink_peers }
    }

    /// A device with no NUMA node that is NVLinked to every other id below `peer_count`.
    pub fn simple(id: usize, peer_count: usize) -> (r: Self)
        ensures
            r.id == id,
            r.numa_node is None,
            r.pci_bus_id@ == spec_short_bus_id(id),
            r.nvlink_peers@ == spec_all_but(peer_count as nat, id),
    {
        let nvlink_peers = all_but(peer_count, id);
        Self { id, numa_node: None, pci_bus_id: pci_bus_id_short(id), nvlink_peers }
    }

    pub fn is_nvlink_peer(&self, other_id: usize) -> (r: bool)
        ensures
            r == self.nvlink_peers@.contains(other_id),
    {
        let mut i: usize = 0;
        while i < self.nvlink_peers.len()
            invariant
                i <= self.nvlink_peers@.len(),
                forall|j: int| 0 <= j < i ==> self.nvlink_peers@[j] != other_id,
            decreases self.nvlink_peers@.len() - i,
        {
            if self.nvlink_peers[i] == other_id {
                return true;
            }
            i = i + 1;
        }
        false
    }

    pub fn peer_count(&self) -> (r: usize)
        ensures
            r == self.nvlink_peers@.len(),
    {
        self.nvlink_peers.len()
    }
}

} // verus!
