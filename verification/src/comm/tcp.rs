use vstd::prelude::*;
use crate::codec::{push_u64_le, read_u64_le, spec_u64_from_le, spec_u64_le, lemma_u64_le_roundtrip};

verus! {

/// Length of the prefix that announces the length of a TCP frame, and of the handshake
/// in which a connecting rank names itself.
pub const LEN_PREFIX_SIZE: usize = 8;

/// The ranks a rank dials when it joins: every rank above it. Lower ranks dial it.
pub open spec fn spec_peers_to_dial(rank: usize, world_size: usize) -> Seq<usize> {
    if rank < world_size {
        Seq::new((world_size - rank - 1) as nat, |i: int| (rank + 1 + i) as usize)
    } else {
        Seq::empty()
    }
}

/// The ranks `rank` connects to when it joins a world of `world_size` ranks, in
/// increasing order.
pub fn peers_to_dial(rank: usize, world_size: usize) -> (r: Vec<usize>)
    ensures
        r@ == spec_peers_to_dial(rank, world_size),
{
    let mut peers: Vec<usize> = Vec::new();
    let mut dst: usize = 0;
    while dst < world_size
        invariant
            dst <= world_size,
            peers@ == spec_peers_to_dial(rank, world_size).take(
                if dst <= rank + 1 {
                    0
                } else {
                    dst - rank - 1
                },
            ),
        decreases world_size - dst,
    {
        if dst > rank {
            peers.push(dst);
        }
        dst = dst + 1;
        assert(peers@ =~= spec_peers_to_dial(rank, world_size).take(
            if dst <= rank + 1 {
                0
            } else {
                dst - rank - 1
            },
        ));
    }
    assert(peers@ =~= spec_peers_to_dial(rank, world_size));
    peers
}

/// Every rank pair is connected exactly once: of two distinct ranks of a world, exactly
/// one dials the other.
pub proof fn lemma_each_pair_dialled_once(a: usize, b: usize, world_size: usize)
    requires
        a < world_size,
        b < world_size,
        a != b,
    ensures
        spec_peers_to_dial(a, world_size).contains(b) != spec_peers_to_dial(b, world_size).contains(a),
{
    if a < b {
        assert(spec_peers_to_dial(a, world_size)[b - a - 1] == b);
        if spec_peers_to_dial(b, world_size).contains(a) {
            let i = choose|i: int| 0 <= i < spec_peers_to_dial(b, world_size).len()
                && spec_peers_to_dial(b, world_size)[i] == a;
            assert(false);
        }
    } else {
        assert(spec_peers_to_dial(b, world_size)[a - b - 1] == a);
        if spec_peers_to_dial(a, world_size).contains(b) {
            let i = choose|i: int| 0 <= i < spec_peers_to_dial(a, world_size).len()
                && spec_peers_to_dial(a, world_size)[i] == b;
            assert(false);
        }
    }
}

/// The handshake a connecting rank sends: its rank as a little-endian 64-bit number.
pub fn handshake_bytes(rank: usize) -> (r: Vec<u8>)
    ensures
        r@ == spec_u64_le(rank as u64),
{
    let mut bytes: Vec<u8> = Vec::new();
    push_u64_le(&mut bytes, rank as u64);
    assert(bytes@ =~= spec_u64_le(rank as u64));
    bytes
}

/// The rank a handshake names.
pub fn handshake_rank(bytes: &[u8]) -> (r: usize)
    requires
        bytes@.len() >= LEN_PREFIX_SIZE,
    ensures
        r == spec_u64_from_le(bytes@.subrange(0, 8)) as usize,
{
    read_u64_le(bytes, 0) as usize
}

/// The prefix of a frame carrying `len` bytes: `len` as a little-endian 64-bit number.
pub fn frame_prefix(len: usize) -> (r: Vec<u8>)
    ensures
        r@ == spec_u64_le(len as u64),
{
    let mut bytes: Vec<u8> = Vec::new();
    push_u64_le(&mut bytes, len as u64);
    assert(bytes@ =~= spec_u64_le(len as u64));
    bytes
}

/// The payload length a frame prefix announces.
pub fn frame_len(prefix: &[u8]) -> (r: usize)
    requires
        prefix@.len() >= LEN_PREFIX_SIZE,
    ensures
        r == spec_u64_from_le(prefix@.subrange(0, 8)) as usize,
{
    read_u64_le(prefix, 0) as usize
}

/// A handshake names the rank that sent it, and a frame prefix announces the length it was
/// made for.
pub proof fn lemma_prefix_roundtrip(n: usize)
    ensures
        spec_u64_from_le(spec_u64_le(n as u64).subrange(0, 8)) as usize == n,
{
    lemma_u64_le_roundtrip(n as u64);
    assert(spec_u64_le(n as u64).subrange(0, 8) =~= spec_u64_le(n as u64));
}

} // verus!
