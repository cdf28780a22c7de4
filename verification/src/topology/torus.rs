use vstd::prelude::*;
use vstd::arithmetic::div_mod::*;
use vstd::arithmetic::mul::*;

verus! {

/// Position of a node in a 2-D or 3-D torus. `z` is `None` for a 2-D torus.
#[derive(Debug, Clone, Copy, PartialEq, Eq, Hash, Structural)]
pub struct TorusCoordinates {
    pub x: usize,
    pub y: usize,
    pub z: Option<usize>,
}

/// Extent of a torus along each axis. `depth` is `None` for a 2-D torus.
#[derive(Debug, Clone, Copy, PartialEq, Eq, Structural)]
pub struct TorusDimensions {
    pub width: usize,
    pub height: usize,
    pub depth: Option<usize>,
}

impl TorusDimensions {
    /// Every axis of the torus has at least one node.
    pub open spec fn is_valid(&self) -> bool {
        &&& self.width > 0
        &&& self.height > 0
        &&& (self.depth matches Some(d) ==> d > 0)
    }

    /// Number of nodes in the torus, as a mathematical integer.
    pub open spec fn spec_total_nodes(&self) -> int {
        match self.depth {
            Some(d) => self.width * self.height * d,
            None => self.width * self.height,
        }
    }

    /// Number of axes: 3 for a 3-D torus, 2 otherwise.
    pub open spec fn spec_axis_count(&self) -> nat {
        if self.depth is Some { 3 } else { 2 }
    }

    /// The node count, and the intermediate product, fit in a `usize`.
    pub open spec fn total_fits(&self) -> bool {
        &&& self.width * self.height <= usize::MAX
        &&& self.spec_total_nodes() <= usize::MAX
    }

    pub fn new_2d(width: usize, height: usize) -> (r: Self)
        ensures
            r == (TorusDimensions { width, height, depth: None }),
    {
        Self { width, height, depth: None }
    }

    pub fn new_3d(width: usize, height: usize, depth: usize) -> (r: Self)
        ensures
            r == (TorusDimensions { width, height, depth: Some(depth) }),
    {
        Self { width, height, depth: Some(depth) }
    }

    pub fn total_nodes(&self) -> (r: usize)
        requires
            self.total_fits(),
        ensures
            r == self.spec_total_nodes(),
    {
        match self.depth {
            Some(d) => self.width * self.height * d,
            None => self.width * self.height,
        }
    }

    pub fn axis_count(&self) -> (r: usize)
        ensures
            r == self.spec_axis_count(),
    {
        if self.depth.is_some() { 3 } else { 2 }
    }
}

/// The neighbouring position along one axis of a ring of `size` positions.
pub open spec fn spec_wrap_neighbor(current: int, size: int, positive: bool) -> int {
    if positive {
        (current + 1) % size
    } else {
        (current + size - 1) % size
    }
}

/// The sum that `wrap_neighbor` computes before taking the remainder fits in a `usize`.
pub open spec fn wrap_fits(current: usize, size: usize, positive: bool) -> bool {
    if positive {
        current + 1 <= usize::MAX
    } else {
        current + size <= usize::MAX
    }
}

pub fn wrap_neighbor(current: usize, size: usize, positive: bool) -> (r: usize)
    requires
        size > 0,
        positive ==> current + 1 <= usize::MAX,
        !positive ==> current + size <= usize::MAX,
    ensures
        r == spec_wrap_neighbor(current as int, size as int, positive),
        r < size,
{
    if positive {
        (current + 1) % size
    } else {
        (current + size - 1) % size
    }
}

impl TorusCoordinates {
    /// The coordinates lie inside the torus and have as many axes as it has.
    pub open spec fn in_bounds(&self, dims: &TorusDimensions) -> bool {
        &&& self.x < dims.width
        &&& self.y < dims.height
        &&& match (self.z, dims.depth) {
            (Some(z), Some(d)) => z < d,
            (None, None) => true,
            _ => false,
        }
    }

    /// Row-major index of the coordinates: x varies fastest, then y, then z.
    pub open spec fn spec_linear_index(&self, dims: &TorusDimensions) -> int {
        match self.z {
            Some(z) => z * dims.width * dims.height + self.y * dims.width + self.x,
            None => self.y * dims.width + self.x,
        }
    }

    /// The index, and every partial product computed on the way, fit in a `usize`.
    pub open spec fn linear_index_fits(&self, dims: &TorusDimensions) -> bool {
        &&& self.spec_linear_index(dims) <= usize::MAX
        &&& (self.z matches Some(z) ==> z * dims.width <= usize::MAX)
    }

    pub open spec fn spec_is_3d(&self) -> bool {
        self.z is Some
    }

    pub fn new_2d(x: usize, y: usize) -> (r: Self)
        ensures
            r == (TorusCoordinates { x, y, z: None }),
    {
        Self { x, y, z: None }
    }

    pub fn new_3d(x: usize, y: usize, z: usize) -> (r: Self)
        ensures
            r == (TorusCoordinates { x, y, z: Some(z) }),
    {
        Self { x, y, z: Some(z) }
    }

    pub fn is_3d(&self) -> (r: bool)
        ensures
            r == self.spec_is_3d(),
    {
        self.z.is_some()
    }

    pub fn linear_index(&self, dims: &TorusDimensions) -> (r: usize)
        requires
            self.linear_index_fits(dims),
        ensures
            r == self.spec_linear_index(dims),
    {
        match self.z {
            Some(z) => {
                proof {
                    let zw = z * dims.width;
                    assert(zw * dims.height >= 0) by (nonlinear_arith)
                        requires zw >= 0, dims.height >= 0;
                    assert(self.y * dims.width >= 0) by (nonlinear_arith);
                }
                z * dims.width * dims.height + self.y * dims.width + self.x
            },
            None => {
                proof {
                    assert(self.y * dims.width >= 0) by (nonlinear_arith);
                }
                self.y * dims.width + self.x
            },
        }
    }
}

/// The coordinates that `from_linear` produces for a row-major index.
pub open spec fn spec_from_linear(index: int, dims: &TorusDimensions) -> TorusCoordinates {
    match dims.depth {
        Some(depth) => {
            let plane = dims.width * dims.height;
            let rem = index % plane;
            TorusCoordinates {
                x: (rem % (dims.width as int)) as usize,
                y: (rem / (dims.width as int)) as usize,
                z: Some(((index / plane) % (depth as int)) as usize),
            }
        },
        None => TorusCoordinates {
            x: (index % (dims.width as int)) as usize,
            y: (index / (dims.width as int)) as usize,
            z: None,
        },
    }
}

/// What `from_linear` needs of the dimensions: no division by zero, no overflow.
pub open spec fn from_linear_defined(dims: &TorusDimensions) -> bool {
    &&& dims.width > 0
    &&& match dims.depth {
        Some(d) => d > 0 && dims.height > 0 && dims.width * dims.height <= usize::MAX,
        None => true,
    }
}

impl TorusCoordinates {
    pub fn from_linear(index: usize, dims: &TorusDimensions) -> (r: Self)
        requires
            from_linear_defined(dims),
        ensures
            r == spec_from_linear(index as int, dims),
    {
        match dims.depth {
            Some(depth) => {
                proof {
                    assert(dims.width * dims.height > 0) by (nonlinear_arith)
                        requires dims.width > 0, dims.height > 0;
                }
                let plane = dims.width * dims.height;
                let z = index / plane;
                let rem = index % plane;
                let y = rem / dims.width;
                let x = rem % dims.width;
                Self::new_3d(x, y, z % depth)
            },
            None => {
                let y = index / dims.width;
                let x = index % dims.width;
                Self::new_2d(x, y)
            },
        }
    }
}


impl TorusCoordinates {
    /// The coordinates one step along `axis` in direction `positive`, wrapping around.
    /// Along axis 2 a missing depth counts as 1 and a missing `z` as 0.
    pub open spec fn spec_neighbor(&self, dims: &TorusDimensions, axis: int, positive: bool) -> TorusCoordinates {
        if axis == 0 {
            TorusCoordinates {
                x: spec_wrap_neighbor(self.x as int, dims.width as int, positive) as usize,
                ..*self
            }
        } else if axis == 1 {
            TorusCoordinates {
                y: spec_wrap_neighbor(self.y as int, dims.height as int, positive) as usize,
                ..*self
            }
        } else {
            TorusCoordinates {
                z: Some(
                    spec_wrap_neighbor(
                        spec_z_or_zero(self.z) as int,
                        spec_depth_or_one(dims.depth) as int,
                        positive,
                    ) as usize,
                ),
                ..*self
            }
        }
    }

    /// `neighbor` neither panics nor overflows for these arguments.
    pub open spec fn neighbor_defined(&self, dims: &TorusDimensions, axis: int, positive: bool) -> bool {
        &&& 0 <= axis < 3
        &&& (axis == 0 ==> dims.width > 0 && wrap_fits(self.x, dims.width, positive))
        &&& (axis == 1 ==> dims.height > 0 && wrap_fits(self.y, dims.height, positive))
        &&& (axis == 2 ==> spec_depth_or_one(dims.depth) > 0 && wrap_fits(
            spec_z_or_zero(self.z),
            spec_depth_or_one(dims.depth),
            positive,
        ))
    }

    /// Number of axes these coordinates have.
    pub open spec fn spec_axes(&self) -> int {
        if self.z is Some { 3 } else { 2 }
    }

    /// The list `neighbors` returns: for each axis, the positive then the negative neighbour,
    /// each paired with its axis.
    pub open spec fn spec_neighbors(&self, dims: &TorusDimensions) -> Seq<(TorusCoordinates, usize)> {
        Seq::new(
            (2 * self.spec_axes()) as nat,
            |k: int| (self.spec_neighbor(dims, k / 2, k % 2 == 0), (k / 2) as usize),
        )
    }

    pub open spec fn neighbors_defined(&self, dims: &TorusDimensions) -> bool {
        forall|axis: int, positive: bool|
            0 <= axis < self.spec_axes() ==> #[trigger] self.neighbor_defined(dims, axis, positive)
    }

    pub fn neighbor(&self, dims: &TorusDimensions, axis: usize, positive: bool) -> (r: TorusCoordinates)
        requires
            self.neighbor_defined(dims, axis as int, positive),
        ensures
            r == self.spec_neighbor(dims, axis as int, positive),
    {
        if axis == 0 {
            let x = wrap_neighbor(self.x, dims.width, positive);
            TorusCoordinates { x, y: self.y, z: self.z }
        } else if axis == 1 {
            let y = wrap_neighbor(self.y, dims.height, positive);
            TorusCoordinates { x: self.x, y, z: self.z }
        } else {
            let depth = match dims.depth {
                Some(d) => d,
                None => 1,
            };
            let z_val = match self.z {
                Some(z) => z,
                None => 0,
            };
            let z = wrap_neighbor(z_val, depth, positive);
            TorusCoordinates { x: self.x, y: self.y, z: Some(z) }
        }
    }

    pub fn neighbors(&self, dims: &TorusDimensions) -> (r: Vec<(TorusCoordinates, usize)>)
        requires
            self.neighbors_defined(dims),
        ensures
            r@ == self.spec_neighbors(dims),
    {
        let mut result: Vec<(TorusCoordinates, usize)> = Vec::new();
        let axes: usize = if self.z.is_some() { 3 } else { 2 };
        let mut axis: usize = 0;
        while axis < axes
            invariant
                axes == self.spec_axes(),
                axis <= axes,
                self.neighbors_defined(dims),
                result@.len() == 2 * axis,
                forall|k: int|
                    0 <= k < 2 * axis ==> result@[k] == (
                        self.spec_neighbor(dims, k / 2, k % 2 == 0),
                        (k / 2) as usize,
                    ),
            decreases axes - axis,
        {
            assert(self.neighbor_defined(dims, axis as int, true));
            assert(self.neighbor_defined(dims, axis as int, false));
            let pos = self.neighbor(dims, axis, true);
            result.push((pos, axis));
            let neg = self.neighbor(dims, axis, false);
            result.push((neg, axis));
            axis = axis + 1;
        }
        assert(result@ =~= self.spec_neighbors(dims));
        result
    }
}

pub open spec fn spec_depth_or_one(depth: Option<usize>) -> usize {
    match depth {
        Some(d) => d,
        None => 1,
    }
}

pub open spec fn spec_z_or_zero(z: Option<usize>) -> usize {
    match z {
        Some(v) => v,
        None => 0,
    }
}

/// Stepping forward then back (or back then forward) along a ring returns to the start,
/// and every step lands inside the ring.
pub proof fn lemma_wrap_inverse(c: int, size: int)
    requires
        0 <= c < size,
    ensures
        0 <= spec_wrap_neighbor(c, size, true) < size,
        0 <= spec_wrap_neighbor(c, size, false) < size,
        spec_wrap_neighbor(spec_wrap_neighbor(c, size, true), size, false) == c,
        spec_wrap_neighbor(spec_wrap_neighbor(c, size, false), size, true) == c,
{
    let p = spec_wrap_neighbor(c, size, true);
    let n = spec_wrap_neighbor(c, size, false);
    if c + 1 < size {
        lemma_small_mod((c + 1) as nat, size as nat);
        assert(p == c + 1);
        lemma_mod_add_multiples_vanish(c, size);
        lemma_small_mod(c as nat, size as nat);
        assert((size + c) % size == c);
        assert(p + size - 1 == size + c);
    } else {
        lemma_mod_self_0(size);
        assert(p == 0);
        lemma_small_mod((size - 1) as nat, size as nat);
    }
    if c >= 1 {
        lemma_mod_add_multiples_vanish(c - 1, size);
        lemma_small_mod((c - 1) as nat, size as nat);
        assert(c + size - 1 == size + (c - 1));
        assert(n == c - 1);
        lemma_small_mod(c as nat, size as nat);
    } else {
        lemma_small_mod((size - 1) as nat, size as nat);
        assert(n == size - 1);
        lemma_mod_self_0(size);
    }
}

/// Along an axis of a valid torus, the neighbour of in-bounds coordinates is in bounds,
/// and the neighbour in the opposite direction of the neighbour is the starting point.
pub proof fn lemma_neighbor_inverse(c: TorusCoordinates, dims: TorusDimensions, axis: int, positive: bool)
    requires
        dims.is_valid(),
        c.in_bounds(&dims),
        0 <= axis < c.spec_axes(),
    ensures
        c.spec_neighbor(&dims, axis, positive).in_bounds(&dims),
        c.spec_neighbor(&dims, axis, positive).spec_neighbor(&dims, axis, !positive) == c,
{
    if axis == 0 {
        lemma_wrap_inverse(c.x as int, dims.width as int);
    } else if axis == 1 {
        lemma_wrap_inverse(c.y as int, dims.height as int);
    } else {
        lemma_wrap_inverse(spec_z_or_zero(c.z) as int, spec_depth_or_one(dims.depth) as int);
    }
}

/// Converting a node index below the node count to coordinates and back gives the index,
/// and the coordinates are in bounds.
pub proof fn lemma_linear_index_of_from_linear(index: int, dims: TorusDimensions)
    requires
        dims.is_valid(),
        dims.total_fits(),
        0 <= index < dims.spec_total_nodes(),
    ensures
        spec_from_linear(index, &dims).in_bounds(&dims),
        spec_from_linear(index, &dims).spec_linear_index(&dims) == index,
{
    let w = dims.width as int;
    let h = dims.height as int;
    match dims.depth {
        Some(d) => {
            let d = d as int;
            let plane = w * h;
            assert(plane > 0) by (nonlinear_arith) requires w > 0, h > 0, plane == w * h;
            let q = index / plane;
            let rem = index % plane;
            lemma_fundamental_div_mod(index, plane);
            lemma_mod_pos_bound(index, plane);
            assert(index == plane * q + rem);
            assert(0 <= q < d) by (nonlinear_arith)
                requires index == plane * q + rem, 0 <= rem < plane, 0 <= index < plane * d, plane > 0;
            assert(plane * d == w * h * d) by (nonlinear_arith) requires plane == w * h;
            lemma_small_mod(q as nat, d as nat);
            let y = rem / w;
            let x = rem % w;
            lemma_fundamental_div_mod(rem, w);
            lemma_mod_pos_bound(rem, w);
            assert(rem == w * y + x);
            assert(0 <= y < h) by (nonlinear_arith)
                requires rem == w * y + x, 0 <= x < w, 0 <= rem < w * h, w > 0;
            assert(q * w * h == plane * q) by (nonlinear_arith) requires plane == w * h;
            assert(y * w == w * y) by (nonlinear_arith);
        },
        None => {
            let y = index / w;
            let x = index % w;
            lemma_fundamental_div_mod(index, w);
            lemma_mod_pos_bound(index, w);
            assert(0 <= y < h) by (nonlinear_arith)
                requires index == w * y + x, 0 <= x < w, 0 <= index < w * h, w > 0;
            assert(y * w == w * y) by (nonlinear_arith);
        },
    }
}

/// Converting in-bounds coordinates to their index and back gives the coordinates,
/// and the index is below the node count.
pub proof fn lemma_from_linear_of_linear_index(c: TorusCoordinates, dims: TorusDimensions)
    requires
        dims.is_valid(),
        c.in_bounds(&dims),
    ensures
        spec_from_linear(c.spec_linear_index(&dims), &dims) == c,
        0 <= c.spec_linear_index(&dims) < dims.spec_total_nodes(),
{
    let w = dims.width as int;
    let h = dims.height as int;
    let x = c.x as int;
    let y = c.y as int;
    let rem = y * w + x;
    assert(0 <= rem < w * h) by (nonlinear_arith)
        requires 0 <= x < w, 0 <= y < h, rem == y * w + x;
    assert(rem == w * y + x) by (nonlinear_arith) requires rem == y * w + x;
    lemma_fundamental_div_mod_converse(rem, w, y, x);
    match (c.z, dims.depth) {
        (Some(z), Some(d)) => {
            let z = z as int;
            let d = d as int;
            let plane = w * h;
            let idx = c.spec_linear_index(&dims);
            assert(idx == z * plane + rem) by (nonlinear_arith)
                requires idx == z * w * h + y * w + x, plane == w * h, rem == y * w + x;
            lemma_fundamental_div_mod_converse(idx, plane, z, rem);
            lemma_small_mod(z as nat, d as nat);
            assert(idx < plane * d) by (nonlinear_arith)
                requires idx == z * plane + rem, 0 <= z < d, 0 <= rem < plane;
            assert(plane * d == w * h * d) by (nonlinear_arith) requires plane == w * h;
            assert(0 <= idx) by (nonlinear_arith) requires idx == z * plane + rem, z >= 0, rem >= 0, plane > 0;
        },
        _ => {},
    }
}

} // verus!
