use vstd::prelude::*;
use crate::topology::device::GPUDeviceView;
use crate::topology::error::TopologyError;
use crate::topology::mesh::{IntraNodeMesh, is_full_mesh};
use crate::topology::torus::{
    TorusCoordinates, TorusDimensions, from_linear_defined, spec_from_linear,
};

verus! {

/// A torus of nodes, each node an NVLink mesh of GPUs. Node `i` of `nodes` sits at the
/// coordinates whose row-major index is `i`.
#[derive(Debug, PartialEq)]
pub struct MeshTorusHybrid {
    pub dims: TorusDimensions,
    pub nodes: Vec<IntraNodeMesh>,
}

/// The mathematical value of a [`MeshTorusHybrid`].
pub struct MeshTorusHybridView {
    pub dims: TorusDimensions,
    pub nodes: Seq<Seq<GPUDeviceView>>,
}

impl View for MeshTorusHybrid {
    type V = MeshTorusHybridView;

    open spec fn view(&self) -> MeshTorusHybridView {
        MeshTorusHybridView {
            dims: self.dims,
            nodes: self.nodes@.map_values(|n: IntraNodeMesh| n@),
        }
    }
}

/// Total number of devices over all nodes.
pub open spec fn spec_device_sum(nodes: Seq<Seq<GPUDeviceView>>) -> int
    decreases nodes.len(),
{
    if nodes.len() == 0 {
        0
    } else {
        spec_device_sum(nodes.drop_last()) + nodes.last().len()
    }
}

/// Every node is a synthetic full mesh of `per_node` devices.
pub open spec fn all_full_meshes(nodes: Seq<Seq<GPUDeviceView>>, per_node: nat) -> bool {
    forall|i: int| 0 <= i < nodes.len() ==> #[trigger] is_full_mesh(nodes[i], per_node)
}

/// The neighbours of `coords` that name an existing node, each with that node's devices,
/// in the order `TorusCoordinates::neighbors` lists them.
pub open spec fn spec_node_neighbors(
    v: MeshTorusHybridView,
    coords: TorusCoordinates,
) -> Seq<(TorusCoordinates, Seq<GPUDeviceView>)> {
    spec_neighbor_nodes(v, coords.spec_neighbors(&v.dims))
}

pub open spec fn spec_neighbor_nodes(
    v: MeshTorusHybridView,
    ns: Seq<(TorusCoordinates, usize)>,
) -> Seq<(TorusCoordinates, Seq<GPUDeviceView>)> {
    ns.filter(|p: (TorusCoordinates, usize)| p.0.spec_linear_index(&v.dims) < v.nodes.len()).map_values(
        |p: (TorusCoordinates, usize)| (p.0, v.nodes[p.0.spec_linear_index(&v.dims)]),
    )
}

/// Positive extents; the node count fits in a `usize` and matches the number of nodes.
pub open spec fn spec_well_formed(v: MeshTorusHybridView) -> bool {
    &&& v.dims.is_valid()
    &&& v.dims.total_fits()
    &&& v.nodes.len() == v.dims.spec_total_nodes()
}

impl Clone for MeshTorusHybrid {
    fn clone(&self) -> (r: Self)
        ensures
            r@ == self@,
    {
        let mut nodes: Vec<IntraNodeMesh> = Vec::new();
        let mut i: usize = 0;
        while i < self.nodes.len()
            invariant
                i <= self.nodes@.len(),
                nodes@.len() == i,
                forall|k: int| 0 <= k < i ==> nodes@[k]@ == self.nodes@[k]@,
            decreases self.nodes@.len() - i,
        {
            nodes.push(self.nodes[i].clone());
            i = i + 1;
        }
        let r = MeshTorusHybrid { dims: self.dims, nodes };
        assert(r@.nodes =~= self@.nodes);
        r
    }
}

/// `count` synthetic full meshes of `per_node` devices each.
fn full_mesh_nodes(count: usize, per_node: usize) -> (r: Vec<IntraNodeMesh>)
    requires
        per_node > 0,
    ensures
        r@.len() == count,
        all_full_meshes(r@.map_values(|n: IntraNodeMesh| n@), per_node as nat),
{
    let mut nodes: Vec<IntraNodeMesh> = Vec::new();
    let mut i: usize = 0;
    while i < count
        invariant
            per_node > 0,
            i <= count,
            nodes@.len() == i,
            forall|k: int| 0 <= k < i ==> #[trigger] is_full_mesh(nodes@[k]@, per_node as nat),
        decreases count - i,
    {
        match IntraNodeMesh::full_mesh(per_node) {
            Ok(m) => nodes.push(m),
            Err(_) => {},
        }
        i = i + 1;
    }
    let ghost v = nodes@.map_values(|n: IntraNodeMesh| n@);
    assert forall|k: int| 0 <= k < v.len() implies #[trigger] is_full_mesh(v[k], per_node as nat) by {
        assert(v[k] == nodes@[k]@);
    }
    nodes
}

impl MeshTorusHybrid {
    pub open spec fn well_formed(&self) -> bool {
        spec_well_formed(self@)
    }

    /// A `width` x `height` torus of full meshes with `devices_per_node` devices each.
    pub fn new_2d(width: usize, height: usize, devices_per_node: usize) -> (r: Result<Self, TopologyError>)
        requires
            width > 0 && height > 0 && devices_per_node > 0 ==> width * height <= usize::MAX,
        ensures
            width == 0 || height == 0 || devices_per_node == 0 ==> r == Err::<Self, TopologyError>(
                TopologyError::ZeroExtent,
            ),
            width > 0 && height > 0 && devices_per_node > 0 ==> (r matches Ok(t) && t.dims == TorusDimensions {
                width,
                height,
                depth: None,
            } && t.well_formed() && all_full_meshes(t@.nodes, devices_per_node as nat)),
    {
        if width == 0 || height == 0 || devices_per_node == 0 {
            return Err(TopologyError::ZeroExtent);
        }
        let dims = TorusDimensions::new_2d(width, height);
        let nodes = full_mesh_nodes(dims.total_nodes(), devices_per_node);
        Ok(Self { dims, nodes })
    }

    /// A `width` x `height` x `depth` torus of full meshes with `devices_per_node` devices each.
    pub fn new_3d(width: usize, height: usize, depth: usize, devices_per_node: usize) -> (r: Result<
        Self,
        TopologyError,
    >)
        requires
            width > 0 && height > 0 && depth > 0 && devices_per_node > 0 ==> width * height * depth
                <= usize::MAX,
        ensures
            width == 0 || height == 0 || depth == 0 || devices_per_node == 0 ==> r == Err::<
                Self,
                TopologyError,
            >(TopologyError::ZeroExtent),
            width > 0 && height > 0 && depth > 0 && devices_per_node > 0 ==> (r matches Ok(t)
                && t.dims == TorusDimensions { width, height, depth: Some(depth) } && t.well_formed()
                && all_full_meshes(t@.nodes, devices_per_node as nat)),
    {
        if width == 0 || height == 0 || depth == 0 || devices_per_node == 0 {
            return Err(TopologyError::ZeroExtent);
        }
        proof {
            assert(width * height <= width * height * depth) by (nonlinear_arith)
                requires
                    depth >= 1,
            ;
        }
        let dims = TorusDimensions::new_3d(width, height, depth);
        let nodes = full_mesh_nodes(dims.total_nodes(), devices_per_node);
        Ok(Self { dims, nodes })
    }

    pub fn total_nodes(&self) -> (r: usize)
        ensures
            r == self@.nodes.len(),
    {
        self.nodes.len()
    }

    pub fn total_devices(&self) -> (r: usize)
        requires
            spec_device_sum(self@.nodes) <= usize::MAX,
        ensures
            r == spec_device_sum(self@.nodes),
    {
        let ghost v = self@.nodes;
        let mut total: usize = 0;
        let mut i: usize = 0;
        while i < self.nodes.len()
            invariant
                v == self@.nodes,
                i <= v.len(),
                spec_device_sum(v) <= usize::MAX,
                total == spec_device_sum(v.take(i as int)),
            decreases v.len() - i,
        {
            proof {
                assert(v.take(i as int + 1).drop_last() =~= v.take(i as int));
                lemma_device_sum_prefix(v, i as int + 1);
            }
            total = total + self.nodes[i].device_count();
            i = i + 1;
        }
        assert(v.take(i as int) =~= v);
        total
    }

    pub fn devices_per_node(&self) -> (r: usize)
        ensures
            r == (if self@.nodes.len() > 0 { self@.nodes[0].len() } else { 0 }),
    {
        if self.nodes.len() > 0 {
            self.nodes[0].device_count()
        } else {
            0
        }
    }

    pub fn node_at(&self, coords: &TorusCoordinates) -> (r: Option<&IntraNodeMesh>)
        requires
            coords.linear_index_fits(&self.dims),
        ensures
            ({
                let idx = coords.spec_linear_index(&self.dims);
                if idx < self.nodes@.len() {
                    r == Some(&self.nodes@[idx])
                } else {
                    r is None
                }
            }),
    {
        let idx = coords.linear_index(&self.dims);
        if idx < self.nodes.len() {
            Some(&self.nodes[idx])
        } else {
            None
        }
    }

    pub fn node_at_mut(&mut self, coords: &TorusCoordinates) -> (r: Option<&mut IntraNodeMesh>)
        requires
            coords.linear_index_fits(&old(self).dims),
        ensures
            ({
                let idx = coords.spec_linear_index(&old(self).dims);
                if idx < old(self).nodes@.len() {
                    &&& r matches Some(m)
                    &&& *m == old(self).nodes@[idx]
                    &&& final(self).dims == old(self).dims
                    &&& final(self).nodes@ == old(self).nodes@.update(idx, *final(m))
                } else {
                    &&& r is None
                    &&& *final(self) == *old(self)
                }
            }),
    {
        let idx = coords.linear_index(&self.dims);
        if idx < self.nodes.len() {
            Some(&mut self.nodes[idx])
        } else {
            None
        }
    }

    /// Global id of device `local_id` of the node at `node_coords`, numbering devices node by node.
    pub fn global_device_id(&self, node_coords: &TorusCoordinates, local_id: usize) -> (r: usize)
        requires
            node_coords.linear_index_fits(&self.dims),
            node_coords.spec_linear_index(&self.dims) * (if self@.nodes.len() > 0 {
                self@.nodes[0].len()
            } else {
                0
            }) + local_id <= usize::MAX,
        ensures
            r == node_coords.spec_linear_index(&self.dims) * (if self@.nodes.len() > 0 {
                self@.nodes[0].len()
            } else {
                0
            }) + local_id,
    {
        let node_idx = node_coords.linear_index(&self.dims);
        let per_node = self.devices_per_node();
        proof {
            assert(node_idx * per_node >= 0) by (nonlinear_arith);
        }
        node_idx * per_node + local_id
    }

    /// The neighbouring nodes of the node at `coords`, with a copy of each node's mesh.
    pub fn node_neighbors(&self, coords: &TorusCoordinates) -> (r: Vec<(TorusCoordinates, IntraNodeMesh)>)
        requires
            coords.neighbors_defined(&self.dims),
            forall|k: int|
                0 <= k < coords.spec_neighbors(&self.dims).len() ==> (
                #[trigger] coords.spec_neighbors(&self.dims)[k]).0.linear_index_fits(&self.dims),
        ensures
            r@.map_values(|e: (TorusCoordinates, IntraNodeMesh)| (e.0, e.1@)) == spec_node_neighbors(
                self@,
                *coords,
            ),
    {
        let ns = coords.neighbors(&self.dims);
        let ghost v = self@;
        let ghost pred = |p: (TorusCoordinates, usize)| p.0.spec_linear_index(&v.dims) < v.nodes.len();
        let ghost f = |p: (TorusCoordinates, usize)| (p.0, v.nodes[p.0.spec_linear_index(&v.dims)]);
        let mut result: Vec<(TorusCoordinates, IntraNodeMesh)> = Vec::new();
        let mut i: usize = 0;
        while i < ns.len()
            invariant
                v == self@,
                ns@ == coords.spec_neighbors(&self.dims),
                forall|k: int| 0 <= k < ns@.len() ==> (#[trigger] ns@[k]).0.linear_index_fits(&self.dims),
                i <= ns@.len(),
                pred == (|p: (TorusCoordinates, usize)| p.0.spec_linear_index(&v.dims) < v.nodes.len()),
                f == (|p: (TorusCoordinates, usize)| (p.0, v.nodes[p.0.spec_linear_index(&v.dims)])),
                result@.map_values(|e: (TorusCoordinates, IntraNodeMesh)| (e.0, e.1@)) == ns@.take(
                    i as int,
                ).filter(pred).map_values(f),
            decreases ns@.len() - i,
        {
            let (neighbor, _axis) = ns[i];
            assert(ns@[i as int].0.linear_index_fits(&self.dims));
            let ghost old_result = result@;
            proof {
                assert(ns@.take(i as int + 1).drop_last() =~= ns@.take(i as int));
                reveal_with_fuel(Seq::filter, 1);
            }
            match self.node_at(&neighbor) {
                Some(mesh) => {
                    let copy = mesh.clone();
                    result.push((neighbor, copy));
                    proof {
                        let idx = neighbor.spec_linear_index(&self.dims);
                        assert(v.nodes[idx] == self.nodes@[idx]@);
                        let s1 = ns@.take(i as int + 1);
                        assert(s1.last() == ns@[i as int]);
                        assert(pred(ns@[i as int]));
                        assert(s1.filter(pred) == ns@.take(i as int).filter(pred).push(ns@[i as int]));
                        assert(f(ns@[i as int]) == (neighbor, self.nodes@[idx]@));
                        assert(ns@.take(i as int + 1).filter(pred).map_values(f) =~= ns@.take(i as int).filter(pred).map_values(f).push(f(ns@[i as int])));
                        assert(result@.map_values(|e: (TorusCoordinates, IntraNodeMesh)| (e.0, e.1@))
                            =~= ns@.take(i as int + 1).filter(pred).map_values(f));
                    }
                },
                None => {
                    proof {
                        assert(ns@.take(i as int + 1).filter(pred) =~= ns@.take(i as int).filter(pred));
                    }
                },
            }
            i = i + 1;
        }
        assert(ns@.take(ns@.len() as int) =~= ns@);
        result
    }

    pub fn node_rank(&self, coords: &TorusCoordinates) -> (r: usize)
        requires
            coords.linear_index_fits(&self.dims),
        ensures
            r == coords.spec_linear_index(&self.dims),
    {
        coords.linear_index(&self.dims)
    }

    pub fn rank_to_coords(&self, rank: usize) -> (r: TorusCoordinates)
        requires
            from_linear_defined(&self.dims),
        ensures
            r == spec_from_linear(rank as int, &self.dims),
    {
        TorusCoordinates::from_linear(rank, &self.dims)
    }
}

proof fn lemma_device_sum_prefix(nodes: Seq<Seq<GPUDeviceView>>, n: int)
    requires
        0 <= n <= nodes.len(),
    ensures
        0 <= spec_device_sum(nodes.take(n)) <= spec_device_sum(nodes),
    decreases nodes.len(),
{
    if nodes.len() == 0 {
        assert(nodes.take(n) =~= nodes);
    } else if n == nodes.len() {
        assert(nodes.take(n) =~= nodes);
        lemma_device_sum_prefix(nodes.drop_last(), n - 1);
        assert(nodes.drop_last().take(n - 1) =~= nodes.drop_last());
    } else {
        lemma_device_sum_prefix(nodes.drop_last(), n);
        assert(nodes.drop_last().take(n) =~= nodes.take(n));
    }
}

/// A torus of `n` nodes that are all full meshes of `per_node` devices holds
/// `n * per_node` devices.
pub proof fn lemma_uniform_device_count(nodes: Seq<Seq<GPUDeviceView>>, per_node: nat)
    requires
        all_full_meshes(nodes, per_node),
    ensures
        spec_device_sum(nodes) == nodes.len() * per_node,
    decreases nodes.len(),
{
    if nodes.len() > 0 {
        let rest = nodes.drop_last();
        assert forall|i: int| 0 <= i < rest.len() implies #[trigger] is_full_mesh(rest[i], per_node) by {
            assert(rest[i] == nodes[i]);
        }
        lemma_uniform_device_count(rest, per_node);
        assert(is_full_mesh(nodes[nodes.len() - 1], per_node));
        assert(rest.len() * per_node + per_node == nodes.len() * per_node) by (nonlinear_arith)
            requires rest.len() + 1 == nodes.len();
    }
}

} // verus!
