use vstd::prelude::*;

verus! {

/// How `all_reduce` combines the values that the ranks contribute.
#[derive(Debug, Clone, Copy, PartialEq, Eq, Hash, Structural)]
pub enum ReduceOp {
    Sum,
    Product,
    Min,
    Max,
    Mean,
}

/// The name of a reduction, as it is displayed.
pub open spec fn spec_reduce_op_name(op: ReduceOp) -> Seq<char> {
    match op {
        ReduceOp::Sum => "Sum"@,
        ReduceOp::Product => "Product"@,
        ReduceOp::Min => "Min"@,
        ReduceOp::Max => "Max"@,
        ReduceOp::Mean => "Mean"@,
    }
}

impl ReduceOp {
    /// The reduction's name.
    pub fn to_string(&self) -> (r: String)
        ensures
            r@ == spec_reduce_op_name(*self),
    {
        match self {
            ReduceOp::Sum => String::from_str("Sum"),
            ReduceOp::Product => String::from_str("Product"),
            ReduceOp::Min => String::from_str("Min"),
            ReduceOp::Max => String::from_str("Max"),
            ReduceOp::Mean => String::from_str("Mean"),
        }
    }
}

/// Why a communication call failed.
#[derive(Debug, PartialEq, Eq)]
pub enum CommError {
    /// The destination rank is not below the world size.
    DestinationOutOfRange { dst: usize, world_size: usize },
    /// The source rank is not below the world size.
    SourceOutOfRange { src: usize, world_size: usize },
    /// The broadcast root is not below the world size.
    RootOutOfRange { root: usize, world_size: usize },
    /// The communicator cannot perform this operation; the text says why.
    Unsupported(String),
    /// A received frame could not be decoded.
    MalformedFrame,
    /// The share of rank `rank`, in a world of `world_size` ranks, lies beyond the end of
    /// the reduced buffer of `len` bytes it would be cut from.
    ShareOutOfRange { rank: usize, world_size: usize, len: usize },
}

/// The outcome of a call that returns bytes, with the bytes taken by their value.
pub open spec fn spec_bytes_result(r: Result<Vec<u8>, CommError>) -> Result<Seq<u8>, CommError> {
    match r {
        Ok(v) => Ok(v@),
        Err(e) => Err(e),
    }
}

/// The outcome of an all-gather, with each gathered chunk taken by its value.
pub open spec fn spec_chunks_result(r: Result<Vec<Vec<u8>>, CommError>) -> Result<Seq<Seq<u8>>, CommError> {
    match r {
        Ok(v) => Ok(v@.map_values(|c: Vec<u8>| c@)),
        Err(e) => Err(e),
    }
}

/// Point-to-point and collective communication among the ranks of a world.
///
/// `rank` and `world_size` report the communicator's fixed identity. What a transfer
/// returns is the implementation's to decide: each transfer's outcome satisfies the
/// matching `*_outcome` predicate, which an implementation may define to pin it down and
/// which otherwise admits every outcome.
pub trait Communicator: Send + Sync {
    /// This communicator's rank.
    spec fn spec_rank(&self) -> usize;

    /// The number of ranks in this communicator's world.
    spec fn spec_world_size(&self) -> usize;

    /// `r` is an outcome `send` may have when it sends `data` to `dst`.
    open spec fn send_outcome(&self, data: Seq<u8>, dst: usize, r: Result<(), CommError>) -> bool {
        true
    }

    /// `r` is an outcome `recv` may have when it receives from `src`.
    open spec fn recv_outcome(&self, src: usize, r: Result<Seq<u8>, CommError>) -> bool {
        true
    }

    /// `r` is an outcome `all_reduce` may have when it reduces `data` with `op`.
    open spec fn all_reduce_outcome(&self, data: Seq<u8>, op: ReduceOp, r: Result<Seq<u8>, CommError>) -> bool {
        true
    }

    /// `r` is an outcome `broadcast` may have when it broadcasts `data` from `root`.
    open spec fn broadcast_outcome(&self, data: Seq<u8>, root: usize, r: Result<Seq<u8>, CommError>) -> bool {
        true
    }

    /// `r` is an outcome `all_gather` may have when it gathers `data`.
    open spec fn all_gather_outcome(&self, data: Seq<u8>, r: Result<Seq<Seq<u8>>, CommError>) -> bool {
        true
    }

    fn send(&self, data: Vec<u8>, dst: usize) -> (r: Result<(), CommError>)
        ensures
            self.send_outcome(data@, dst, r),
    ;

    fn recv(&self, src: usize) -> (r: Result<Vec<u8>, CommError>)
        ensures
            self.recv_outcome(src, spec_bytes_result(r)),
    ;

    fn all_reduce(&self, data: Vec<u8>, op: ReduceOp) -> (r: Result<Vec<u8>, CommError>)
        ensures
            self.all_reduce_outcome(data@, op, spec_bytes_result(r)),
    ;

    fn broadcast(&self, data: Vec<u8>, root: usize) -> (r: Result<Vec<u8>, CommError>)
        ensures
            self.broadcast_outcome(data@, root, spec_bytes_result(r)),
    ;

    fn all_gather(&self, data: Vec<u8>) -> (r: Result<Vec<Vec<u8>>, CommError>)
        ensures
            self.all_gather_outcome(data@, spec_chunks_result(r)),
    ;

    fn rank(&self) -> (r: usize)
        ensures
            r == self.spec_rank(),
    ;

    fn world_size(&self) -> (r: usize)
        ensures
            r == self.spec_world_size(),
    ;
}

} // verus!
