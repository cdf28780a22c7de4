use vstd::prelude::*;
use crate::topology::hybrid::MeshTorusHybrid;
use crate::topology::torus::{
    TorusCoordinates, TorusDimensions, from_linear_defined, spec_from_linear, spec_wrap_neighbor,
};

verus! {

/// The number of hops between positions `a` and `b` on a ring of `size` positions: the
/// shorter of the two ways round.
pub open spec fn spec_torus_distance(a: int, b: int, size: int) -> int {
    let forward = if a <= b { b - a } else { a - b };
    let backward = size - forward;
    if forward <= backward {
        forward
    } else {
        backward
    }
}

/// The number of hops between two nodes of a torus: the ring distances along x and y, plus
/// along z when both nodes and the torus have a z axis.
pub open spec fn spec_hop_distance(from: TorusCoordinates, to: TorusCoordinates, dims: TorusDimensions) -> int {
    let z_dist = match (from.z, to.z, dims.depth) {
        (Some(fz), Some(tz), Some(depth)) => spec_torus_distance(fz as int, tz as int, depth as int),
        _ => 0,
    };
    spec_torus_distance(from.x as int, to.x as int, dims.width as int) + spec_torus_distance(
        from.y as int,
        to.y as int,
        dims.height as int,
    ) + z_dist
}

/// The two positions are no further apart than the ring is long.
pub open spec fn ring_distance_defined(a: int, b: int, size: int) -> bool {
    if a <= b {
        b - a <= size
    } else {
        a - b <= size
    }
}

/// `compute_hop_distance` neither underflows nor overflows for these arguments.
pub open spec fn hop_distance_defined(from: TorusCoordinates, to: TorusCoordinates, dims: TorusDimensions) -> bool {
    &&& ring_distance_defined(from.x as int, to.x as int, dims.width as int)
    &&& ring_distance_defined(from.y as int, to.y as int, dims.height as int)
    &&& match (from.z, to.z, dims.depth) {
        (Some(fz), Some(tz), Some(depth)) => ring_distance_defined(fz as int, tz as int, depth as int),
        _ => true,
    }
    &&& spec_hop_distance(from, to, dims) <= usize::MAX
}

/// Places pipeline stage `i` on the node whose rank is `i`.
pub fn topology_aware_placement(num_stages: usize, topology: &MeshTorusHybrid) -> (r: Vec<(usize, TorusCoordinates)>)
    requires
        num_stages > 0 ==> from_linear_defined(&topology.dims),
    ensures
        r@.len() == num_stages,
        forall|i: int|
            0 <= i < num_stages ==> #[trigger] r@[i] == (i as usize, spec_from_linear(i, &topology.dims)),
{
    let mut placement: Vec<(usize, TorusCoordinates)> = Vec::new();
    let mut stage_id: usize = 0;
    while stage_id < num_stages
        invariant
            stage_id <= num_stages,
            num_stages > 0 ==> from_linear_defined(&topology.dims),
            placement@.len() == stage_id,
            forall|i: int|
                0 <= i < stage_id ==> #[trigger] placement@[i] == (i as usize, spec_from_linear(i, &topology.dims)),
        decreases num_stages - stage_id,
    {
        let coords = topology.rank_to_coords(stage_id);
        placement.push((stage_id, coords));
        stage_id = stage_id + 1;
    }
    placement
}

fn torus_distance(a: usize, b: usize, size: usize) -> (r: usize)
    requires
        ring_distance_defined(a as int, b as int, size as int),
    ensures
        r == spec_torus_distance(a as int, b as int, size as int),
{
    let forward = if a <= b { b - a } else { a - b };
    let backward = size - forward;
    if forward <= backward {
        forward
    } else {
        backward
    }
}

/// The number of hops between two nodes of the topology's torus.
pub fn compute_hop_distance(from: &TorusCoordinates, to: &TorusCoordinates, topology: &MeshTorusHybrid) -> (r: usize)
    requires
        hop_distance_defined(*from, *to, topology.dims),
    ensures
        r == spec_hop_distance(*from, *to, topology.dims),
{
    let x_dist = torus_distance(from.x, to.x, topology.dims.width);
    let y_dist = torus_distance(from.y, to.y, topology.dims.height);
    let z_dist = match (from.z, to.z, topology.dims.depth) {
        (Some(fz), Some(tz), Some(depth)) => torus_distance(fz, tz, depth),
        _ => 0,
    };
    x_dist + y_dist + z_dist
}

/// The ring distance between two positions of a ring is the shorter way round: it is one of
/// the two ways (`|a - b|` hops one way, `size - |a - b|` the other) and no longer than
/// either, so it never exceeds half the ring.
pub proof fn lemma_torus_distance_shorter_way(a: int, b: int, size: int)
    requires
        0 <= a < size,
        0 <= b < size,
    ensures
        ({
            let d = spec_torus_distance(a, b, size);
            let one_way = if a <= b { b - a } else { a - b };
            &&& d == one_way || d == size - one_way
            &&& d <= one_way
            &&& d <= size - one_way
            &&& 0 <= d <= size / 2
        }),
{
}

/// The hop distance is symmetric, and zero from a node to itself.
pub proof fn lemma_hop_distance_symmetric(a: TorusCoordinates, b: TorusCoordinates, dims: TorusDimensions)
    ensures
        spec_hop_distance(a, b, dims) == spec_hop_distance(b, a, dims),
        spec_hop_distance(a, a, dims) == 0,
{
}

/// On a ring of at least two positions, a position and its wrapped neighbour in either
/// direction are one hop apart.
pub proof fn lemma_wrap_neighbor_one_hop(c: int, size: int, positive: bool)
    requires
        size >= 2,
        0 <= c < size,
    ensures
        spec_torus_distance(c, spec_wrap_neighbor(c, size, positive), size) == 1,
        ring_distance_defined(c, spec_wrap_neighbor(c, size, positive), size),
{
    if positive {
        if c + 1 < size {
            vstd::arithmetic::div_mod::lemma_small_mod((c + 1) as nat, size as nat);
        } else {
            vstd::arithmetic::div_mod::lemma_mod_self_0(size);
        }
    } else {
        if c >= 1 {
            vstd::arithmetic::div_mod::lemma_mod_add_multiples_vanish(c - 1, size);
            vstd::arithmetic::div_mod::lemma_small_mod((c - 1) as nat, size as nat);
        } else {
            vstd::arithmetic::div_mod::lemma_small_mod((size - 1) as nat, size as nat);
        }
    }
}

/// A node and its torus neighbour along one of its axes are one hop apart, when that axis
/// has at least two positions.
pub proof fn lemma_neighbor_one_hop(c: TorusCoordinates, dims: TorusDimensions, axis: int, positive: bool)
    requires
        c.in_bounds(&dims),
        0 <= axis < c.spec_axes(),
        axis == 0 ==> dims.width >= 2,
        axis == 1 ==> dims.height >= 2,
        axis == 2 ==> (dims.depth matches Some(d) && d >= 2),
    ensures
        spec_hop_distance(c, c.spec_neighbor(&dims, axis, positive), dims) == 1,
{
    lemma_hop_distance_symmetric(c, c, dims);
    if axis == 0 {
        lemma_wrap_neighbor_one_hop(c.x as int, dims.width as int, positive);
    } else if axis == 1 {
        lemma_wrap_neighbor_one_hop(c.y as int, dims.height as int, positive);
    } else {
        lemma_wrap_neighbor_one_hop(c.z->0 as int, dims.depth->0 as int, positive);
    }
}

proof fn lemma_next_in_block(i: int, m: int)
    requires
        i >= 0,
        m > 0,
        (i + 1) % m != 0,
    ensures
        (i + 1) % m == i % m + 1,
        (i + 1) / m == i / m,
{
    vstd::arithmetic::div_mod::lemma_fundamental_div_mod(i, m);
    vstd::arithmetic::div_mod::lemma_mod_pos_bound(i, m);
    let q = i / m;
    let r = i % m;
    if r + 1 < m {
        vstd::arithmetic::div_mod::lemma_fundamental_div_mod_converse(i + 1, m, q, r + 1);
    } else {
        assert(i + 1 == (q + 1) * m) by (nonlinear_arith)
            requires
                i == m * q + r,
                r + 1 == m,
        ;
        vstd::arithmetic::div_mod::lemma_mod_multiples_basic(q + 1, m);
    }
}

/// Stages placed on consecutive ranks of the same row of the torus are one hop apart when
/// the rows are at least two nodes long.
pub proof fn lemma_consecutive_stages_one_hop(i: int, dims: TorusDimensions)
    requires
        dims.is_valid(),
        from_linear_defined(&dims),
        i >= 0,
        dims.width >= 2,
        (i + 1) % (dims.width as int) != 0,
    ensures
        spec_hop_distance(spec_from_linear(i, &dims), spec_from_linear(i + 1, &dims), dims) == 1,
        hop_distance_defined(spec_from_linear(i, &dims), spec_from_linear(i + 1, &dims), dims),
{
    let w = dims.width as int;
    let a = spec_from_linear(i, &dims);
    let b = spec_from_linear(i + 1, &dims);
    match dims.depth {
        Some(depth) => {
            let plane = w * dims.height;
            assert(plane > 0) by (nonlinear_arith)
                requires
                    w > 0,
                    dims.height > 0,
                    plane == w * dims.height,
            ;
            if (i + 1) % plane == 0 {
                vstd::arithmetic::div_mod::lemma_fundamental_div_mod(i + 1, plane);
                let k = (i + 1) / plane;
                assert(i + 1 == (k * dims.height) * w) by (nonlinear_arith)
                    requires
                        i + 1 == plane * k + 0,
                        plane == w * dims.height,
                ;
                vstd::arithmetic::div_mod::lemma_mod_multiples_basic(k * dims.height, w);
            }
            lemma_next_in_block(i, plane);
            let rem = (i) % plane;
            vstd::arithmetic::div_mod::lemma_mod_pos_bound(i, plane);
            assert((rem + 1) % w != 0) by {
                vstd::arithmetic::div_mod::lemma_fundamental_div_mod(i, plane);
                let q = (i) / plane;
                assert(i + 1 == (q * dims.height) * w + (rem + 1)) by (nonlinear_arith)
                    requires
                        i == plane * q + rem,
                        plane == w * dims.height,
                ;
                vstd::arithmetic::div_mod::lemma_mod_multiples_vanish(q * dims.height, rem + 1, w);
            }
            lemma_next_in_block(rem, w);
            vstd::arithmetic::div_mod::lemma_mod_pos_bound(rem, w);
            vstd::arithmetic::div_mod::lemma_mod_pos_bound((i) / plane, depth as int);
        },
        None => {
            lemma_next_in_block(i, w);
            vstd::arithmetic::div_mod::lemma_mod_pos_bound(i, w);
        },
    }
}

} // verus!
