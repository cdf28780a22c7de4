use vstd::prelude::*;
use vstd::bytes::{spec_u64_from_le_bytes, spec_u64_to_le_bytes, u64_from_le_bytes, u64_to_le_bytes, lemma_auto_spec_u64_to_from_le_bytes};
use vstd::slice::slice_subrange;
use vstd::wrapping::u64_specs;
use std::collections::HashMap;
use std::sync::Arc;
use crate::comm::collective::{CommError, Communicator, ReduceOp};

verus! {

#[verifier::external_type_specification]
#[verifier::external_body]
#[verifier::reject_recursive_types(R)]
#[verifier::reject_recursive_types(T)]
pub struct ExLockApiRwLock<R, T: ?Sized>(lock_api::RwLock<R, T>);

#[verifier::external_type_specification]
#[verifier::external_body]
pub struct ExParkingLotRawRwLock(parking_lot::RawRwLock);

/// Creates a `parking_lot::RwLock` around `mailboxes` (`lock_api::RwLock::new`).
/// Nothing is stated: Verus does not see into the lock.
#[verifier::external_body]
fn new_mailbox_lock(mailboxes: HashMap<(usize, usize), Vec<u8>>) -> parking_lot::RwLock<
    HashMap<(usize, usize), Vec<u8>>,
> {
    parking_lot::RwLock::new(mailboxes)
}

/// Takes the write lock (`lock_api::RwLock::write`) and stores `data` as the message
/// from `key.0` to `key.1`. Nothing is stated: the map is shared by all ranks of a world,
/// so what it holds afterwards depends on the other ranks too.
#[verifier::external_body]
fn mailbox_store(lock: &parking_lot::RwLock<HashMap<(usize, usize), Vec<u8>>>, key: (usize, usize), data: Vec<u8>) {
    lock.write().insert(key, data);
}

/// Takes the read lock (`lock_api::RwLock::read`) and copies the message from `key.0`
/// to `key.1`, if one was stored. What comes back depends on what every rank of the world
/// has stored, so nothing is stated of it.
#[verifier::external_body]
fn mailbox_load(lock: &parking_lot::RwLock<HashMap<(usize, usize), Vec<u8>>>, key: (usize, usize)) -> Option<Vec<u8>> {
    lock.read().get(&key).cloned()
}

/// The `i`-th little-endian 64-bit word of `c`.
pub open spec fn spec_word(c: Seq<u8>, i: int) -> u64 {
    spec_u64_from_le_bytes(c.subrange(8 * i, 8 * i + 8))
}

/// The `i`-th word of every chunk, in chunk order.
pub open spec fn spec_column(chunks: Seq<Seq<u8>>, i: int) -> Seq<u64> {
    chunks.map_values(|c: Seq<u8>| spec_word(c, i))
}

/// Sum of the values, wrapping around at 2^64.
pub open spec fn spec_wrapping_sum(vals: Seq<u64>) -> u64
    decreases vals.len(),
{
    if vals.len() == 0 {
        0
    } else {
        u64_specs::wrapping_add(spec_wrapping_sum(vals.drop_last()), vals.last())
    }
}

/// Product of the values, wrapping around at 2^64.
pub open spec fn spec_wrapping_product(vals: Seq<u64>) -> u64
    decreases vals.len(),
{
    if vals.len() == 0 {
        1
    } else {
        u64_specs::wrapping_mul(spec_wrapping_product(vals.drop_last()), vals.last())
    }
}

/// Smallest value; 0 for no values.
pub open spec fn spec_min(vals: Seq<u64>) -> u64
    decreases vals.len(),
{
    if vals.len() == 0 {
        0
    } else if vals.len() == 1 {
        vals[0]
    } else {
        let m = spec_min(vals.drop_last());
        if vals.last() < m { vals.last() } else { m }
    }
}

/// Largest value; 0 for no values.
pub open spec fn spec_max(vals: Seq<u64>) -> u64
    decreases vals.len(),
{
    if vals.len() == 0 {
        0
    } else if vals.len() == 1 {
        vals[0]
    } else {
        let m = spec_max(vals.drop_last());
        if vals.last() > m { vals.last() } else { m }
    }
}

/// The reduction of one column of values.
pub open spec fn spec_reduce(op: ReduceOp, vals: Seq<u64>) -> u64 {
    match op {
        ReduceOp::Sum => spec_wrapping_sum(vals),
        ReduceOp::Product => spec_wrapping_product(vals),
        ReduceOp::Min => spec_min(vals),
        ReduceOp::Max => spec_max(vals),
        ReduceOp::Mean => if vals.len() == 0 { 0 } else { (spec_wrapping_sum(vals) / (vals.len() as u64)) as u64 },
    }
}

/// Number of whole words reduced: those of the first chunk.
pub open spec fn spec_word_count(chunks: Seq<Seq<u8>>) -> nat {
    if chunks.len() == 0 { 0 } else { chunks[0].len() / 8 }
}

/// `out` holds, word by word, the reduction of the chunks' words at each position.
pub open spec fn is_reduction(op: ReduceOp, chunks: Seq<Seq<u8>>, out: Seq<u8>) -> bool {
    &&& out.len() == 8 * spec_word_count(chunks)
    &&& forall|i: int| 0 <= i < spec_word_count(chunks) ==> #[trigger] spec_word(out, i) == spec_reduce(op, spec_column(chunks, i))
}

/// `count` copies of `data`.
pub open spec fn spec_copies(data: Seq<u8>, count: nat) -> Seq<Seq<u8>> {
    Seq::new(count, |k: int| data)
}

/// A communicator of a world that lives in one process: all ranks of a world share one
/// set of mailboxes, and a message sent from `a` to `b` waits in mailbox `(a, b)`.
/// Collectives act as if every rank had contributed the caller's data.
#[derive(Debug)]
pub struct MockCommunicator {
    rank: usize,
    world_size: usize,
    mailboxes: Arc<parking_lot::RwLock<HashMap<(usize, usize), Vec<u8>>>>,
}

impl MockCommunicator {
    /// The communicator of rank `rank` in a world of `world_size` ranks, with mailboxes of
    /// its own.
    pub fn new(world_size: usize, rank: usize) -> (r: Self)
        ensures
            r.spec_rank() == rank,
            r.spec_world_size() == world_size,
    {
        Self { rank, world_size, mailboxes: Arc::new(new_mailbox_lock(HashMap::new())) }
    }

    /// The communicators of ranks `0..world_size`, sharing one set of mailboxes.
    pub fn create_world(world_size: usize) -> (r: Vec<Self>)
        ensures
            r@.len() == world_size,
            forall|k: int| 0 <= k < world_size ==> (#[trigger] r@[k]).spec_rank() == k
                && r@[k].spec_world_size() == world_size,
    {
        let mailboxes = Arc::new(new_mailbox_lock(HashMap::new()));
        let mut world: Vec<Self> = Vec::new();
        let mut rank: usize = 0;
        while rank < world_size
            invariant
                rank <= world_size,
                world@.len() == rank,
                forall|k: int| 0 <= k < rank ==> (#[trigger] world@[k]).spec_rank() == k
                    && world@[k].spec_world_size() == world_size,
            decreases world_size - rank,
        {
            world.push(Self { rank, world_size, mailboxes: mailboxes.clone() });
            rank = rank + 1;
        }
        world
    }

    /// Reduces, position by position, the little-endian 64-bit words of the chunks.
    /// Only the whole words of the first chunk count; sums and products wrap around.
    pub fn apply_reduce(op: ReduceOp, chunks: &[Vec<u8>]) -> (r: Vec<u8>)
        requires
            forall|k: int| 0 <= k < chunks@.len() ==> 8 * spec_word_count(chunks@.map_values(|c: Vec<u8>| c@)) <= (#[trigger] chunks@[k])@.len(),
        ensures
            is_reduction(op, chunks@.map_values(|c: Vec<u8>| c@), r@),
    {
        let ghost cs = chunks@.map_values(|c: Vec<u8>| c@);
        if chunks.len() == 0 {
            return Vec::new();
        }
        let n_elems = chunks[0].len() / 8;
        if n_elems == 0 {
            return Vec::new();
        }
        let mut result: Vec<u8> = Vec::new();
        let mut i: usize = 0;
        while i < n_elems
            invariant
                cs == chunks@.map_values(|c: Vec<u8>| c@),
                chunks@.len() > 0,
                n_elems == spec_word_count(cs),
                forall|k: int| 0 <= k < chunks@.len() ==> 8 * n_elems <= (#[trigger] chunks@[k])@.len(),
                i <= n_elems,
                result@.len() == 8 * i,
                forall|j: int| 0 <= j < i ==> #[trigger] spec_word(result@, j) == spec_reduce(op, spec_column(cs, j)),
            decreases n_elems - i,
        {
            let reduced = Self::reduce_column(op, chunks, i);
            let bytes = u64_to_le_bytes(reduced);
            let ghost before = result@;
            let mut b: usize = 0;
            while b < 8
                invariant
                    b <= 8,
                    bytes@.len() == 8,
                    result@ == before + bytes@.take(b as int),
                decreases 8 - b,
            {
                result.push(bytes[b]);
                b = b + 1;
            }
            proof {
                lemma_auto_spec_u64_to_from_le_bytes();
                assert(bytes@.take(8) =~= bytes@);
                assert(result@ == before + bytes@);
                assert(result@.subrange(8 * i as int, 8 * i as int + 8) =~= bytes@);
                assert(spec_word(result@, i as int) == reduced);
                assert(reduced == spec_reduce(op, spec_column(cs, i as int)));
                assert forall|j: int| 0 <= j < i + 1 implies #[trigger] spec_word(result@, j) == spec_reduce(op, spec_column(cs, j)) by {
                    if j < i {
                        assert(result@.subrange(8 * j, 8 * j + 8) =~= before.subrange(8 * j, 8 * j + 8));
                        assert(spec_word(before, j) == spec_reduce(op, spec_column(cs, j)));
                    } else {
                        assert(j == i);
                        assert(result@.subrange(8 * j, 8 * j + 8) == bytes@);
                        assert(spec_u64_to_le_bytes(reduced).len() == 8);
                        assert(spec_u64_from_le_bytes(spec_u64_to_le_bytes(reduced)) == reduced);
                    }
                }
            }
            i = i + 1;
        }
        result
    }

    /// The reduction of the `i`-th words of all chunks.
    fn reduce_column(op: ReduceOp, chunks: &[Vec<u8>], i: usize) -> (r: u64)
        requires
            chunks@.len() > 0,
            i < spec_word_count(chunks@.map_values(|c: Vec<u8>| c@)),
            forall|k: int| 0 <= k < chunks@.len() ==> 8 * spec_word_count(chunks@.map_values(|c: Vec<u8>| c@)) <= (#[trigger] chunks@[k])@.len(),
        ensures
            r == spec_reduce(op, spec_column(chunks@.map_values(|c: Vec<u8>| c@), i as int)),
    {
        let ghost cs = chunks@.map_values(|c: Vec<u8>| c@);
        let ghost col = spec_column(cs, i as int);
        let len0 = chunks[0].len();
        proof {
            let wc = spec_word_count(cs);
            assert(cs[0] == chunks@[0]@);
            assert(wc == len0 / 8);
            assert(i * 8 + 8 <= len0) by (nonlinear_arith)
                requires i < wc, wc == len0 / 8;
        }
        let start = i * 8;
        let mut sum: u64 = 0;
        let mut product: u64 = 1;
        let mut min: u64 = 0;
        let mut max: u64 = 0;
        let mut k: usize = 0;
        while k < chunks.len()
            invariant
                cs == chunks@.map_values(|c: Vec<u8>| c@),
                col == spec_column(cs, i as int),
                col.len() == chunks@.len(),
                start == 8 * i,
                start + 8 <= len0,
                i < spec_word_count(cs),
                forall|j: int| 0 <= j < chunks@.len() ==> 8 * spec_word_count(cs) <= (#[trigger] chunks@[j])@.len(),
                k <= chunks@.len(),
                sum == spec_wrapping_sum(col.take(k as int)),
                product == spec_wrapping_product(col.take(k as int)),
                min == spec_min(col.take(k as int)),
                max == spec_max(col.take(k as int)),
            decreases chunks@.len() - k,
        {
            assert(chunks@[k as int]@.len() >= start + 8) by (nonlinear_arith)
                requires
                    8 * spec_word_count(cs) <= chunks@[k as int]@.len(),
                    i < spec_word_count(cs),
                    start == 8 * i;
            let word = u64_from_le_bytes(slice_subrange(chunks[k].as_slice(), start, start + 8));
            proof {
                assert(col[k as int] == spec_word(cs[k as int], i as int));
                assert(word == col[k as int]);
                assert(col.take(k as int + 1).drop_last() =~= col.take(k as int));
                assert(col.take(k as int + 1).last() == word);
            }
            sum = sum.wrapping_add(word);
            product = product.wrapping_mul(word);
            if k == 0 {
                min = word;
                max = word;
            } else {
                if word < min {
                    min = word;
                }
                if word > max {
                    max = word;
                }
            }
            k = k + 1;
        }
        assert(col.take(chunks@.len() as int) =~= col);
        match op {
            ReduceOp::Sum => sum,
            ReduceOp::Product => product,
            ReduceOp::Min => min,
            ReduceOp::Max => max,
            ReduceOp::Mean => sum / (chunks.len() as u64),
        }
    }

    /// `count` copies of `data`.
    fn copies(data: &Vec<u8>, count: usize) -> (r: Vec<Vec<u8>>)
        ensures
            r@.map_values(|c: Vec<u8>| c@) == spec_copies(data@, count as nat),
    {
        let mut all: Vec<Vec<u8>> = Vec::new();
        let mut k: usize = 0;
        while k < count
            invariant
                k <= count,
                all@.len() == k,
                forall|j: int| 0 <= j < k ==> (#[trigger] all@[j])@ == data@,
            decreases count - k,
        {
            let copy = data.clone();
            assert(copy@ =~= data@);
            all.push(copy);
            k = k + 1;
        }
        assert(all@.map_values(|c: Vec<u8>| c@) =~= spec_copies(data@, count as nat));
        all
    }
}

impl Communicator for MockCommunicator {
    closed spec fn spec_rank(&self) -> usize {
        self.rank
    }

    closed spec fn spec_world_size(&self) -> usize {
        self.world_size
    }

    /// A send succeeds exactly when the destination lies in the world.
    open spec fn send_outcome(&self, data: Seq<u8>, dst: usize, r: Result<(), CommError>) -> bool {
        if dst >= self.spec_world_size() {
            r == Err::<(), CommError>(CommError::DestinationOutOfRange { dst, world_size: self.spec_world_size() })
        } else {
            r is Ok
        }
    }

    /// A receive succeeds exactly when the source lies in the world; the bytes are whatever
    /// waits in the mailbox.
    open spec fn recv_outcome(&self, src: usize, r: Result<Seq<u8>, CommError>) -> bool {
        if src >= self.spec_world_size() {
            r == Err::<Seq<u8>, CommError>(CommError::SourceOutOfRange { src, world_size: self.spec_world_size() })
        } else {
            r is Ok
        }
    }

    /// An all-reduce succeeds with the reduction of `world_size` copies of the data.
    open spec fn all_reduce_outcome(&self, data: Seq<u8>, op: ReduceOp, r: Result<Seq<u8>, CommError>) -> bool {
        r matches Ok(v) && is_reduction(op, spec_copies(data, self.spec_world_size() as nat), v)
    }

    /// A broadcast from a root in the world hands the data back; any other root fails.
    open spec fn broadcast_outcome(&self, data: Seq<u8>, root: usize, r: Result<Seq<u8>, CommError>) -> bool {
        if root >= self.spec_world_size() {
            r == Err::<Seq<u8>, CommError>(CommError::RootOutOfRange { root, world_size: self.spec_world_size() })
        } else {
            r == Ok::<Seq<u8>, CommError>(data)
        }
    }

    /// An all-gather succeeds with `world_size` copies of the data.
    open spec fn all_gather_outcome(&self, data: Seq<u8>, r: Result<Seq<Seq<u8>>, CommError>) -> bool {
        r == Ok::<Seq<Seq<u8>>, CommError>(spec_copies(data, self.spec_world_size() as nat))
    }

    /// Leaves `data` in mailbox `(rank, dst)`.
    fn send(&self, data: Vec<u8>, dst: usize) -> (r: Result<(), CommError>)
        ensures
            dst >= self.spec_world_size() ==> r == Err::<(), CommError>(
                CommError::DestinationOutOfRange { dst, world_size: self.spec_world_size() },
            ),
            dst < self.spec_world_size() ==> r is Ok,
    {
        if dst >= self.world_size {
            return Err(CommError::DestinationOutOfRange { dst, world_size: self.world_size });
        }
        mailbox_store(&self.mailboxes, (self.rank, dst), data);
        Ok(())
    }

    /// Reads mailbox `(src, rank)`: the last message `src` sent here, or nothing.
    fn recv(&self, src: usize) -> (r: Result<Vec<u8>, CommError>)
        ensures
            src >= self.spec_world_size() ==> r == Err::<Vec<u8>, CommError>(
                CommError::SourceOutOfRange { src, world_size: self.spec_world_size() },
            ),
            src < self.spec_world_size() ==> r is Ok,
    {
        if src >= self.world_size {
            return Err(CommError::SourceOutOfRange { src, world_size: self.world_size });
        }
        match mailbox_load(&self.mailboxes, (src, self.rank)) {
            Some(data) => Ok(data),
            None => Ok(Vec::new()),
        }
    }

    /// Reduces `world_size` copies of `data`.
    fn all_reduce(&self, data: Vec<u8>, op: ReduceOp) -> (r: Result<Vec<u8>, CommError>)
        ensures
            r matches Ok(v) && is_reduction(op, spec_copies(data@, self.spec_world_size() as nat), v@),
    {
        let all = Self::copies(&data, self.world_size);
        proof {
            let cs = all@.map_values(|c: Vec<u8>| c@);
            assert forall|k: int| 0 <= k < all@.len() implies 8 * spec_word_count(cs) <= (#[trigger] all@[k])@.len() by {
                assert(cs[k] == all@[k]@);
                assert(cs[0] == all@[0]@);
            }
        }
        Ok(Self::apply_reduce(op, all.as_slice()))
    }

    fn broadcast(&self, data: Vec<u8>, root: usize) -> (r: Result<Vec<u8>, CommError>)
        ensures
            root >= self.spec_world_size() ==> r == Err::<Vec<u8>, CommError>(
                CommError::RootOutOfRange { root, world_size: self.spec_world_size() },
            ),
            root < self.spec_world_size() ==> r == Ok::<Vec<u8>, CommError>(data),
    {
        if root >= self.world_size {
            return Err(CommError::RootOutOfRange { root, world_size: self.world_size });
        }
        Ok(data)
    }

    fn all_gather(&self, data: Vec<u8>) -> (r: Result<Vec<Vec<u8>>, CommError>)
        ensures
            r matches Ok(v) && v@.map_values(|c: Vec<u8>| c@) == spec_copies(data@, self.spec_world_size() as nat),
    {
        Ok(Self::copies(&data, self.world_size))
    }

    fn rank(&self) -> (r: usize) {
        self.rank
    }

    fn world_size(&self) -> (r: usize) {
        self.world_size
    }
}

} // verus!
