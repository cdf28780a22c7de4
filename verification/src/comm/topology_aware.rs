use vstd::prelude::*;
use crate::comm::collective::{CommError, Communicator, ReduceOp, spec_bytes_result, spec_chunks_result};
use crate::topology::coordinator::{CollectiveOp, TopologyAwareCommunicator};
use crate::topology::hybrid::MeshTorusHybrid;
use crate::topology::torus::{TorusCoordinates, from_linear_defined, spec_from_linear};

verus! {

/// The chunks laid end to end.
pub open spec fn spec_flatten(chunks: Seq<Seq<u8>>) -> Seq<u8>
    decreases chunks.len(),
{
    if chunks.len() == 0 {
        Seq::empty()
    } else {
        spec_flatten(chunks.drop_last()) + chunks.last()
    }
}

/// Lays the gathered chunks end to end.
pub fn flatten_chunks(gathered: Vec<Vec<u8>>) -> (r: Vec<u8>)
    ensures
        r@ == spec_flatten(gathered@.map_values(|c: Vec<u8>| c@)),
{
    let ghost g = gathered@.map_values(|c: Vec<u8>| c@);
    let mut flat: Vec<u8> = Vec::new();
    let mut i: usize = 0;
    while i < gathered.len()
        invariant
            g == gathered@.map_values(|c: Vec<u8>| c@),
            i <= gathered@.len(),
            flat@ == spec_flatten(g.take(i as int)),
        decreases gathered@.len() - i,
    {
        let chunk = &gathered[i];
        let ghost before = flat@;
        let mut j: usize = 0;
        while j < chunk.len()
            invariant
                j <= chunk@.len(),
                flat@ == before + chunk@.take(j as int),
            decreases chunk@.len() - j,
        {
            flat.push(chunk[j]);
            proof {
                assert(chunk@.take(j as int + 1) =~= chunk@.take(j as int).push(chunk@[j as int]));
            }
            j = j + 1;
        }
        proof {
            assert(chunk@.take(chunk@.len() as int) =~= chunk@);
            assert(g.take(i as int + 1).drop_last() =~= g.take(i as int));
            assert(g.take(i as int + 1).last() == chunk@);
        }
        i = i + 1;
    }
    assert(g.take(g.len() as int) =~= g);
    flat
}

/// Size of the chunk each rank keeps of a reduced buffer: an equal share, rounded down.
pub open spec fn spec_scatter_chunk_len(len: nat, world_size: nat) -> nat {
    len / (if world_size > 0 { world_size } else { 1 })
}

/// The share of `reduced` that rank `rank` keeps: the `rank`-th chunk of equal size.
pub open spec fn spec_scatter_chunk(reduced: Seq<u8>, rank: nat, world_size: nat) -> Seq<u8> {
    let c = spec_scatter_chunk_len(reduced.len(), world_size);
    reduced.subrange((rank * c) as int, (rank * c + c) as int)
}

/// A rank below the world size owns a chunk that lies inside the buffer.
pub proof fn lemma_scatter_chunk_in_bounds(len: nat, rank: nat, world_size: nat)
    requires
        rank < world_size,
    ensures
        rank * spec_scatter_chunk_len(len, world_size) + spec_scatter_chunk_len(len, world_size) <= len,
{
    let c = spec_scatter_chunk_len(len, world_size);
    vstd::arithmetic::div_mod::lemma_fundamental_div_mod(len as int, world_size as int);
    vstd::arithmetic::div_mod::lemma_mod_pos_bound(len as int, world_size as int);
    assert(rank * c + c <= world_size * c) by (nonlinear_arith)
        requires rank < world_size, c >= 0;
}

/// Rank `rank`'s share of a buffer of `len` bytes reduced over `world_size` ranks lies
/// inside the buffer.
pub open spec fn spec_share_fits(len: nat, rank: nat, world_size: nat) -> bool {
    rank * spec_scatter_chunk_len(len, world_size) + spec_scatter_chunk_len(len, world_size) <= len
}

/// Whether rank `rank`'s share of a buffer of `len` bytes reduced over `world_size` ranks
/// lies inside the buffer.
pub fn share_fits(len: usize, rank: usize, world_size: usize) -> (r: bool)
    ensures
        r == spec_share_fits(len as nat, rank as nat, world_size as nat),
{
    let divisor: usize = if world_size > 0 { world_size } else { 1 };
    let chunk_size = len / divisor;
    assert(chunk_size == spec_scatter_chunk_len(len as nat, world_size as nat));
    if chunk_size == 0 {
        assert(rank * chunk_size + chunk_size == 0) by (nonlinear_arith)
            requires
                chunk_size == 0,
        ;
        return true;
    }
    let fits = rank < len / chunk_size;
    proof {
        let c = chunk_size as int;
        let q = (len as int) / c;
        vstd::arithmetic::div_mod::lemma_fundamental_div_mod(len as int, c);
        vstd::arithmetic::div_mod::lemma_mod_pos_bound(len as int, c);
        if fits {
            assert(rank * c + c <= len) by (nonlinear_arith)
                requires
                    rank < q,
                    len == c * q + (len as int) % c,
                    (len as int) % c >= 0,
                    c > 0,
            ;
        } else {
            assert(rank * c + c > len) by (nonlinear_arith)
                requires
                    rank >= q,
                    len == c * q + (len as int) % c,
                    (len as int) % c < c,
                    c > 0,
            ;
        }
    }
    fits
}

/// Keeps rank `rank`'s share of a buffer reduced over `world_size` ranks.
pub fn scatter_chunk(reduced: &Vec<u8>, rank: usize, world_size: usize) -> (r: Vec<u8>)
    requires
        rank * spec_scatter_chunk_len(reduced@.len(), world_size as nat) + spec_scatter_chunk_len(
            reduced@.len(),
            world_size as nat,
        ) <= reduced@.len(),
    ensures
        r@ == spec_scatter_chunk(reduced@, rank as nat, world_size as nat),
{
    let divisor: usize = if world_size > 0 { world_size } else { 1 };
    let chunk_size = reduced.len() / divisor;
    proof {
        assert(rank * chunk_size >= 0) by (nonlinear_arith);
    }
    assert(chunk_size == spec_scatter_chunk_len(reduced@.len(), world_size as nat));
    let start = rank * chunk_size;
    let end = start + chunk_size;
    let mut out: Vec<u8> = Vec::new();
    let mut k: usize = start;
    while k < end
        invariant
            start <= k <= end,
            end <= reduced@.len(),
            out@ == reduced@.subrange(start as int, k as int),
        decreases end - k,
    {
        out.push(reduced[k]);
        proof {
            assert(reduced@.subrange(start as int, k as int + 1) =~= reduced@.subrange(
                start as int,
                k as int,
            ).push(reduced@[k as int]));
        }
        k = k + 1;
    }
    out
}

/// The bytes of a successful outcome, or `fallback` where it failed.
pub open spec fn spec_value_or(r: Result<Seq<u8>, CommError>, fallback: Seq<u8>) -> Seq<u8> {
    match r {
        Ok(v) => v,
        Err(_) => fallback,
    }
}

/// A communicator that knows where its rank sits in a mesh-torus topology.
pub struct TopologyAwareComm<C: Communicator> {
    inner: C,
    topology: MeshTorusHybrid,
}

impl<C: Communicator> TopologyAwareComm<C> {
    pub closed spec fn spec_inner(&self) -> C {
        self.inner
    }

    pub closed spec fn spec_topology(&self) -> MeshTorusHybrid {
        self.topology
    }

    /// The coordinates of this communicator's rank.
    pub open spec fn spec_rank_coords(&self) -> TorusCoordinates {
        spec_from_linear(self.spec_inner().spec_rank() as int, &self.spec_topology().dims)
    }

    /// This rank's coordinates can be computed, and so can its neighbours' ranks.
    pub open spec fn neighbors_reachable(&self) -> bool {
        let dims = self.spec_topology().dims;
        let c = self.spec_rank_coords();
        &&& from_linear_defined(&dims)
        &&& c.neighbors_defined(&dims)
        &&& forall|k: int|
            0 <= k < c.spec_neighbors(&dims).len() ==> (#[trigger] c.spec_neighbors(&dims)[k]).0.linear_index_fits(
                &dims,
            )
    }

    /// This rank's neighbours along `axis` can be computed, with their ranks.
    pub open spec fn axis_reachable(&self, axis: usize) -> bool {
        let dims = self.spec_topology().dims;
        let c = self.spec_rank_coords();
        &&& from_linear_defined(&dims)
        &&& c.neighbor_defined(&dims, axis as int, true)
        &&& c.neighbor_defined(&dims, axis as int, false)
        &&& c.spec_neighbor(&dims, axis as int, true).linear_index_fits(&dims)
        &&& c.spec_neighbor(&dims, axis as int, false).linear_index_fits(&dims)
    }

    /// Number of torus neighbours of this rank.
    pub open spec fn neighbor_count(&self) -> nat {
        self.spec_rank_coords().spec_neighbors(&self.spec_topology().dims).len()
    }

    /// The rank of this rank's `k`-th torus neighbour, in the order
    /// `TorusCoordinates::neighbors` lists them.
    pub open spec fn neighbor_rank(&self, k: int) -> usize {
        self.spec_rank_coords().spec_neighbors(&self.spec_topology().dims)[k].0.spec_linear_index(
            &self.spec_topology().dims,
        ) as usize
    }

    /// The rank of this rank's neighbour along `axis`, on the positive or the negative side.
    pub open spec fn axis_neighbor_rank(&self, axis: usize, positive: bool) -> usize {
        let dims = self.spec_topology().dims;
        self.spec_rank_coords().spec_neighbor(&dims, axis as int, positive).spec_linear_index(&dims) as usize
    }

    /// `r` is what sending `data` to `rank` and then receiving from it may give: the bytes
    /// received, or `data` where the send or the receive failed (no receive follows a failed
    /// send).
    pub open spec fn sendrecv_outcome(&self, data: Seq<u8>, rank: usize, r: Seq<u8>) -> bool {
        exists|sent: Result<(), CommError>|
            #[trigger] self.spec_inner().send_outcome(data, rank, sent) && (sent is Err ==> r == data) && (
            sent is Ok ==> exists|received: Result<Seq<u8>, CommError>|
                #[trigger] self.spec_inner().recv_outcome(rank, received) && r == spec_value_or(received, data))
    }

    /// Sends `data` to `rank` and receives from it; where a transfer fails, `data` stands in
    /// for the reply.
    fn sendrecv(&self, data: &Vec<u8>, rank: usize) -> (r: Vec<u8>)
        ensures
            self.sendrecv_outcome(data@, rank, r@),
    {
        let sent = self.inner.send(data.clone(), rank);
        match sent {
            Ok(()) => {
                let received = self.inner.recv(rank);
                let ghost outcome = spec_bytes_result(received);
                let r = match received {
                    Ok(v) => v,
                    Err(_) => data.clone(),
                };
                assert(self.spec_inner().recv_outcome(rank, outcome) && r@ == spec_value_or(outcome, data@));
                assert(self.spec_inner().send_outcome(data@, rank, sent));
                r
            },
            Err(_) => {
                assert(self.spec_inner().send_outcome(data@, rank, sent));
                data.clone()
            },
        }
    }

    /// Every transfer with the `k`-th neighbour succeeds, whatever the inner communicator
    /// chooses among its allowed outcomes.
    pub open spec fn neighbor_transfers_succeed(&self, data: Seq<u8>, k: int) -> bool {
        &&& forall|sr: Result<(), CommError>|
            #[trigger] self.spec_inner().send_outcome(data, self.neighbor_rank(k), sr) ==> sr is Ok
        &&& forall|rr: Result<Seq<u8>, CommError>|
            #[trigger] self.spec_inner().recv_outcome(self.neighbor_rank(k), rr) ==> rr is Ok
    }

    /// `r` is an outcome the collective `op` may have on `data`: what the inner
    /// communicator's sum all-reduce or broadcast from rank 0 may return; an all-gather's
    /// chunks laid end to end; or this rank's share of a sum all-reduce, and
    /// `ShareOutOfRange` where that share lies beyond the reduced buffer. A failure of the
    /// inner call is passed on.
    pub open spec fn collective_outcome(&self, op: CollectiveOp, data: Seq<u8>, r: Result<Seq<u8>, CommError>) -> bool {
        let c = self.spec_inner();
        match op {
            CollectiveOp::AllReduce => c.all_reduce_outcome(data, ReduceOp::Sum, r),
            CollectiveOp::Broadcast => c.broadcast_outcome(data, 0, r),
            CollectiveOp::AllGather => match r {
                Ok(v) => exists|g: Seq<Seq<u8>>|
                    #[trigger] c.all_gather_outcome(data, Ok(g)) && v == spec_flatten(g),
                Err(e) => c.all_gather_outcome(data, Err(e)),
            },
            CollectiveOp::ReduceScatter => match r {
                Ok(v) => exists|s: Seq<u8>|
                    #[trigger] c.all_reduce_outcome(data, ReduceOp::Sum, Ok(s)) && spec_share_fits(
                        s.len(),
                        c.spec_rank() as nat,
                        c.spec_world_size() as nat,
                    ) && v == spec_scatter_chunk(s, c.spec_rank() as nat, c.spec_world_size() as nat),
                Err(e) => c.all_reduce_outcome(data, ReduceOp::Sum, Err(e)) || exists|s: Seq<u8>|
                    #[trigger] c.all_reduce_outcome(data, ReduceOp::Sum, Ok(s)) && !spec_share_fits(
                        s.len(),
                        c.spec_rank() as nat,
                        c.spec_world_size() as nat,
                    ) && e == (CommError::ShareOutOfRange {
                        rank: c.spec_rank(),
                        world_size: c.spec_world_size(),
                        len: s.len() as usize,
                    }),
            },
        }
    }

    /// `entry` is what an exchange keeps from the `k`-th neighbour: its rank and the
    /// bytes received from it, after sending it `data` succeeded.
    pub open spec fn exchanged_with(&self, data: Seq<u8>, k: int, entry: (usize, Vec<u8>)) -> bool {
        &&& entry.0 == self.neighbor_rank(k)
        &&& self.spec_inner().send_outcome(data, self.neighbor_rank(k), Ok(()))
        &&& self.spec_inner().recv_outcome(self.neighbor_rank(k), Ok(entry.1@))
    }

    /// An exchange of `data` stops at the `k`-th neighbour with error `e`: the transfers
    /// with the neighbours before it succeeded, and then sending to the `k`-th failed with
    /// `e`, or sending succeeded and receiving failed with `e`.
    pub open spec fn exchange_failed_at(&self, data: Seq<u8>, k: int, e: CommError) -> bool {
        let c = self.spec_inner();
        &&& forall|j: int| 0 <= j < k ==> c.send_outcome(data, #[trigger] self.neighbor_rank(j), Ok(()))
            && exists|b: Seq<u8>| #[trigger] c.recv_outcome(self.neighbor_rank(j), Ok(b))
        &&& (c.send_outcome(data, self.neighbor_rank(k), Err(e)) || (c.send_outcome(
            data,
            self.neighbor_rank(k),
            Ok(()),
        ) && c.recv_outcome(self.neighbor_rank(k), Err(e))))
    }

    /// The exchanges before the `k`-th neighbour went through and a transfer with it failed
    /// with `e`: the exchange stops there, and not every transfer with it was bound to succeed.
    proof fn lemma_exchange_failed_at(&self, data: Seq<u8>, k: int, e: CommError, done: Seq<(usize, Vec<u8>)>)
        requires
            0 <= k < self.neighbor_count(),
            done.len() == k,
            forall|j: int| 0 <= j < k ==> self.exchanged_with(data, j, #[trigger] done[j]),
            self.spec_inner().send_outcome(data, self.neighbor_rank(k), Err(e)) || (
            self.spec_inner().send_outcome(data, self.neighbor_rank(k), Ok(()))
                && self.spec_inner().recv_outcome(self.neighbor_rank(k), Err(e))),
        ensures
            self.exchange_failed_at(data, k, e),
            !self.neighbor_transfers_succeed(data, k),
    {
        let c = self.spec_inner();
        assert forall|j: int| 0 <= j < k implies c.send_outcome(data, #[trigger] self.neighbor_rank(j), Ok(()))
            && exists|b: Seq<u8>| #[trigger] c.recv_outcome(self.neighbor_rank(j), Ok(b)) by {
            assert(self.exchanged_with(data, j, done[j]));
            assert(c.recv_outcome(self.neighbor_rank(j), Ok(done[j].1@)));
        }
    }

    pub fn new(inner: C, topology: MeshTorusHybrid) -> (r: Self)
        ensures
            r.spec_inner() == inner,
            r.spec_topology() == topology,
    {
        Self { inner, topology }
    }

    pub fn rank(&self) -> (r: usize)
        ensures
            r == self.spec_inner().spec_rank(),
    {
        self.inner.rank()
    }

    pub fn world_size(&self) -> (r: usize)
        ensures
            r == self.spec_inner().spec_world_size(),
    {
        self.inner.world_size()
    }

    pub fn inner(&self) -> (r: &C)
        ensures
            *r == self.spec_inner(),
    {
        &self.inner
    }

    pub fn topology(&self) -> (r: &MeshTorusHybrid)
        ensures
            *r == self.spec_topology(),
    {
        &self.topology
    }

    pub fn rank_coords(&self) -> (r: TorusCoordinates)
        requires
            from_linear_defined(&self.spec_topology().dims),
        ensures
            r == self.spec_rank_coords(),
    {
        self.topology.rank_to_coords(self.inner.rank())
    }

    /// Sends `data` to each torus neighbour of this rank and receives its message back,
    /// in the order `TorusCoordinates::neighbors` lists the neighbours. Stops at the
    /// first failing transfer and passes its error on; succeeds wherever no transfer
    /// can fail.
    pub fn exchange_with_neighbors(&self, data: Vec<u8>) -> (r: Result<Vec<(usize, Vec<u8>)>, CommError>)
        requires
            self.neighbors_reachable(),
        ensures
            match r {
                Ok(v) => {
                    &&& v@.len() == self.neighbor_count()
                    &&& forall|k: int| 0 <= k < v@.len() ==> self.exchanged_with(data@, k, #[trigger] v@[k])
                },
                Err(e) => exists|k: int|
                    0 <= k < self.neighbor_count() && #[trigger] self.exchange_failed_at(data@, k, e),
            },
            (forall|k: int| 0 <= k < self.neighbor_count() ==> #[trigger] self.neighbor_transfers_succeed(data@, k))
                ==> r is Ok,
    {
        let ghost input = data@;
        let coords = self.rank_coords();
        let neighbors = coords.neighbors(&self.topology.dims);
        let mut results: Vec<(usize, Vec<u8>)> = Vec::new();
        let mut i: usize = 0;
        while i < neighbors.len()
            invariant
                self.neighbors_reachable(),
                input == data@,
                coords == self.spec_rank_coords(),
                neighbors@ == coords.spec_neighbors(&self.spec_topology().dims),
                self.topology == self.spec_topology(),
                i <= neighbors@.len(),
                results@.len() == i,
                forall|k: int| 0 <= k < i ==> self.exchanged_with(input, k, #[trigger] results@[k]),
            decreases neighbors@.len() - i,
        {
            let (neighbor_coords, _axis) = neighbors[i];
            assert(neighbors@[i as int].0.linear_index_fits(&self.spec_topology().dims));
            let neighbor_rank = self.topology.node_rank(&neighbor_coords);
            assert(neighbor_rank == self.neighbor_rank(i as int));
            let sent = self.inner.send(data.clone(), neighbor_rank);
            match sent {
                Ok(()) => {},
                Err(e) => {
                    proof {
                        self.lemma_exchange_failed_at(input, i as int, e, results@);
                    }
                    return Err(e);
                },
            }
            assert(sent->Ok_0 == ());
            let received = self.inner.recv(neighbor_rank);
            let recv_data = match received {
                Ok(d) => d,
                Err(e) => {
                    proof {
                        self.lemma_exchange_failed_at(input, i as int, e, results@);
                    }
                    return Err(e);
                },
            };
            results.push((neighbor_rank, recv_data));
            assert(self.exchanged_with(input, i as int, results@[i as int]));
            i = i + 1;
        }
        Ok(results)
    }

    /// Runs a collective on the inner communicator: sum all-reduce, broadcast from rank 0,
    /// all-gather laid end to end, or a sum all-reduce of which this rank keeps its share
    /// (`ShareOutOfRange` where the share lies beyond the reduced buffer).
    pub fn perform_collective(&self, op: CollectiveOp, data: Vec<u8>) -> (r: Result<Vec<u8>, CommError>)
        ensures
            self.collective_outcome(op, data@, spec_bytes_result(r)),
    {
        let ghost input = data@;
        match op {
            CollectiveOp::AllReduce => self.inner.all_reduce(data, ReduceOp::Sum),
            CollectiveOp::Broadcast => self.inner.broadcast(data, 0),
            CollectiveOp::AllGather => {
                let gathered = match self.inner.all_gather(data) {
                    Ok(g) => g,
                    Err(e) => return Err(e),
                };
                let ghost chunks = gathered@.map_values(|c: Vec<u8>| c@);
                let flat = flatten_chunks(gathered);
                assert(self.spec_inner().all_gather_outcome(input, Ok(chunks)) && flat@ == spec_flatten(chunks));
                Ok(flat)
            },
            CollectiveOp::ReduceScatter => {
                let reduced = match self.inner.all_reduce(data, ReduceOp::Sum) {
                    Ok(v) => v,
                    Err(e) => return Err(e),
                };
                let rank = self.inner.rank();
                let world_size = self.inner.world_size();
                if !share_fits(reduced.len(), rank, world_size) {
                    assert(self.spec_inner().all_reduce_outcome(input, ReduceOp::Sum, Ok(reduced@)));
                    return Err(CommError::ShareOutOfRange { rank, world_size, len: reduced.len() });
                }
                let share = scatter_chunk(&reduced, rank, world_size);
                assert(self.spec_inner().all_reduce_outcome(input, ReduceOp::Sum, Ok(reduced@)));
                Ok(share)
            },
        }
    }

    /// Sums `data` over the world; the group is not consulted.
    pub fn reduce_on_mesh(&self, data: Vec<u8>, group: &[usize]) -> (r: Result<Vec<u8>, CommError>)
        ensures
            self.spec_inner().all_reduce_outcome(data@, ReduceOp::Sum, spec_bytes_result(r)),
    {
        let _ = group;
        self.inner.all_reduce(data, ReduceOp::Sum)
    }
}

impl<C: Communicator> TopologyAwareCommunicator for TopologyAwareComm<C> {
    open spec fn exchange_defined(&self, axis: usize) -> bool {
        self.axis_reachable(axis)
    }

    open spec fn collective_defined(&self, op: CollectiveOp) -> bool {
        true
    }

    /// Exchanges with the positive then the negative neighbour along `axis`; where a
    /// transfer fails, the caller's own data stands in for the reply.
    fn nearest_neighbor_exchange(&self, data: Vec<u8>, axis: usize) -> (r: Vec<Vec<u8>>)
        ensures
            r@.len() == 2,
            self.sendrecv_outcome(data@, self.axis_neighbor_rank(axis, true), r@[0]@),
            self.sendrecv_outcome(data@, self.axis_neighbor_rank(axis, false), r@[1]@),
    {
        let coords = self.rank_coords();
        let positive = coords.neighbor(&self.topology.dims, axis, true);
        let negative = coords.neighbor(&self.topology.dims, axis, false);
        let pos_rank = self.topology.node_rank(&positive);
        let neg_rank = self.topology.node_rank(&negative);
        let mut results: Vec<Vec<u8>> = Vec::new();
        results.push(self.sendrecv(&data, pos_rank));
        results.push(self.sendrecv(&data, neg_rank));
        results
    }

    /// The sum over the world, or an empty buffer where that fails.
    fn all_reduce_mesh(&self, data: Vec<u8>, group: &[usize]) -> (r: Vec<u8>)
        ensures
            exists|reduced: Result<Seq<u8>, CommError>|
                #[trigger] self.spec_inner().all_reduce_outcome(data@, ReduceOp::Sum, reduced) && r@ == spec_value_or(
                    reduced,
                    Seq::empty(),
                ),
    {
        let ghost input = data@;
        let reduced = self.reduce_on_mesh(data, group);
        let ghost outcome = spec_bytes_result(reduced);
        let r = match reduced {
            Ok(v) => v,
            Err(_) => Vec::new(),
        };
        assert(self.spec_inner().all_reduce_outcome(input, ReduceOp::Sum, outcome) && r@ == spec_value_or(
            outcome,
            Seq::empty(),
        ));
        r
    }

    /// Sends `data` to `stage_rank` and receives from it; where a transfer fails, the
    /// caller's own data stands in for the reply.
    fn pipeline_stage_sendrecv(&self, data: Vec<u8>, stage_rank: usize) -> (r: Vec<u8>)
        ensures
            self.sendrecv_outcome(data@, stage_rank, r@),
    {
        self.sendrecv(&data, stage_rank)
    }

    /// The collective's result, or an empty buffer where it fails.
    fn route_collective(&self, op: CollectiveOp, data: Vec<u8>) -> (r: Vec<u8>)
        ensures
            exists|outcome: Result<Seq<u8>, CommError>|
                #[trigger] self.collective_outcome(op, data@, outcome) && r@ == spec_value_or(outcome, Seq::empty()),
    {
        let ghost input = data@;
        let result = self.perform_collective(op, data);
        let ghost outcome = spec_bytes_result(result);
        let r = match result {
            Ok(v) => v,
            Err(_) => Vec::new(),
        };
        assert(self.collective_outcome(op, input, outcome) && r@ == spec_value_or(outcome, Seq::empty()));
        r
    }
}

} // verus!
