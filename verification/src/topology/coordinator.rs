use vstd::prelude::*;

verus! {

/// A collective communication pattern.
#[derive(Debug, Clone, Copy, PartialEq, Eq, Hash, Structural)]
pub enum CollectiveOp {
    AllReduce,
    Broadcast,
    AllGather,
    ReduceScatter,
}

/// The name of a collective operation, as it is displayed.
pub open spec fn spec_collective_name(op: CollectiveOp) -> Seq<char> {
    match op {
        CollectiveOp::AllReduce => "AllReduce"@,
        CollectiveOp::Broadcast => "Broadcast"@,
        CollectiveOp::AllGather => "AllGather"@,
        CollectiveOp::ReduceScatter => "ReduceScatter"@,
    }
}

impl CollectiveOp {
    /// The operation's name.
    pub fn to_string(&self) -> (r: String)
        ensures
            r@ == spec_collective_name(*self),
    {
        match self {
            CollectiveOp::AllReduce => String::from_str("AllReduce"),
            CollectiveOp::Broadcast => String::from_str("Broadcast"),
            CollectiveOp::AllGather => String::from_str("AllGather"),
            CollectiveOp::ReduceScatter => String::from_str("ReduceScatter"),
        }
    }
}

/// Communication patterns that follow the shape of a mesh-torus topology.
pub trait TopologyAwareCommunicator: Send + Sync {
    /// The exchange along `axis` is defined for this communicator.
    spec fn exchange_defined(&self, axis: usize) -> bool;

    /// The collective `op` is defined for this communicator.
    spec fn collective_defined(&self, op: CollectiveOp) -> bool;

    /// Exchanges `data` with the neighbours along `axis`; one result per neighbour.
    fn nearest_neighbor_exchange(&self, data: Vec<u8>, axis: usize) -> Vec<Vec<u8>>
        requires
            self.exchange_defined(axis),
    ;

    /// Reduces `data` over the devices of `group`.
    fn all_reduce_mesh(&self, data: Vec<u8>, group: &[usize]) -> Vec<u8>;

    /// Sends `data` to the pipeline stage `stage_rank` and receives its reply.
    fn pipeline_stage_sendrecv(&self, data: Vec<u8>, stage_rank: usize) -> Vec<u8>;

    /// Runs the collective `op` on `data`.
    fn route_collective(&self, op: CollectiveOp, data: Vec<u8>) -> Vec<u8>
        requires
            self.collective_defined(op),
    ;
}

/// A communicator that talks to nobody: every operation hands the data back.
pub struct DummyCommunicator {
    pub rank: usize,
    pub world_size: usize,
}

impl DummyCommunicator {
    pub fn new(rank: usize, world_size: usize) -> (r: Self)
        ensures
            r.rank == rank,
            r.world_size == world_size,
    {
        Self { rank, world_size }
    }

    /// Number of copies `nearest_neighbor_exchange` returns: the world size, at most 4.
    pub open spec fn spec_exchange_count(&self) -> nat {
        if self.world_size < 4 { self.world_size as nat } else { 4 }
    }
}

impl TopologyAwareCommunicator for DummyCommunicator {
    open spec fn exchange_defined(&self, axis: usize) -> bool {
        true
    }

    open spec fn collective_defined(&self, op: CollectiveOp) -> bool {
        true
    }

    fn nearest_neighbor_exchange(&self, data: Vec<u8>, _axis: usize) -> (r: Vec<Vec<u8>>)
        ensures
            r@.len() == self.spec_exchange_count(),
            forall|k: int| 0 <= k < r@.len() ==> (#[trigger] r@[k])@ == data@,
    {
        let n: usize = if self.world_size < 4 { self.world_size } else { 4 };
        let mut result: Vec<Vec<u8>> = Vec::new();
        let mut i: usize = 0;
        while i < n
            invariant
                i <= n,
                result@.len() == i,
                forall|k: int| 0 <= k < i ==> (#[trigger] result@[k])@ == data@,
            decreases n - i,
        {
            let copy = data.clone();
            assert(copy@ =~= data@);
            result.push(copy);
            i = i + 1;
        }
        result
    }

    fn all_reduce_mesh(&self, data: Vec<u8>, _group: &[usize]) -> (r: Vec<u8>)
        ensures
            r == data,
    {
        data
    }

    fn pipeline_stage_sendrecv(&self, data: Vec<u8>, _stage_rank: usize) -> (r: Vec<u8>)
        ensures
            r == data,
    {
        data
    }

    fn route_collective(&self, _op: CollectiveOp, data: Vec<u8>) -> (r: Vec<u8>)
        ensures
            r == data,
    {
        data
    }
}

} // verus!
