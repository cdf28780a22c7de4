use vstd::prelude::*;

verus! {

/// `a / b` rounded up.
pub open spec fn spec_div_ceil(a: nat, b: nat) -> nat {
    ((a + b - 1) / (b as int)) as nat
}

/// The blocks that per-block quantization cuts `len` values into: `block_size` values each,
/// the last one possibly shorter. Block `b` is the half-open range it covers.
pub open spec fn spec_block_ranges(len: nat, block_size: nat) -> Seq<(usize, usize)> {
    Seq::new(
        spec_div_ceil(len, block_size),
        |b: int|
            (
                (b * block_size) as usize,
                if b * block_size + block_size <= len {
                    (b * block_size + block_size) as usize
                } else {
                    len as usize
                },
            ),
    )
}

/// The block length dequantization uses for `data_len` values under `num_scales` block
/// scales: the block length recorded when the values were quantized; where none was
/// recorded, the values divided by the scales, rounded up, or all values when there are no
/// scales.
pub open spec fn spec_dequant_block_size(data_len: nat, num_scales: nat, recorded: Option<usize>) -> nat {
    match recorded {
        Some(b) => b as nat,
        None => if num_scales > 0 {
            spec_div_ceil(data_len, num_scales)
        } else {
            data_len
        },
    }
}

/// The block scale that dequantization applies to value `index`, or `None` where the block
/// has no scale (a scale of one is used then).
pub open spec fn spec_dequant_block(index: nat, data_len: nat, num_scales: nat, recorded: Option<usize>) -> Option<usize> {
    let b = index / spec_dequant_block_size(data_len, num_scales, recorded);
    if b < num_scales {
        Some(b as usize)
    } else {
        None
    }
}

fn div_ceil(a: usize, b: usize) -> (r: usize)
    requires
        b > 0,
    ensures
        r == spec_div_ceil(a as nat, b as nat),
{
    let q = a / b;
    let rem = a % b;
    proof {
        let (ai, bi) = (a as int, b as int);
        vstd::arithmetic::div_mod::lemma_fundamental_div_mod(ai, bi);
        vstd::arithmetic::div_mod::lemma_mod_pos_bound(ai, bi);
        if rem != 0 {
            assert(ai + bi - 1 == (q + 1) * bi + (rem - 1)) by (nonlinear_arith)
                requires
                    ai == bi * q + rem,
            ;
            vstd::arithmetic::div_mod::lemma_fundamental_div_mod_converse(ai + bi - 1, bi, q + 1, rem - 1);
            assert(q * bi <= ai - rem) by (nonlinear_arith)
                requires
                    ai == bi * q + rem,
            ;
            assert(q < ai) by (nonlinear_arith)
                requires
                    q * bi <= ai - rem,
                    rem >= 1,
                    bi >= 1,
                    q >= 0,
            ;
        } else {
            assert(ai + bi - 1 == q * bi + (bi - 1)) by (nonlinear_arith)
                requires
                    ai == bi * q + rem,
                    rem == 0,
            ;
            vstd::arithmetic::div_mod::lemma_fundamental_div_mod_converse(ai + bi - 1, bi, q as int, bi - 1);
        }
    }
    if rem != 0 {
        q + 1
    } else {
        q
    }
}

/// The ranges of the blocks that per-block quantization cuts `len` values into.
pub fn block_ranges(len: usize, block_size: usize) -> (r: Vec<(usize, usize)>)
    requires
        block_size > 0,
        spec_div_ceil(len as nat, block_size as nat) * block_size <= usize::MAX,
    ensures
        r@ == spec_block_ranges(len as nat, block_size as nat),
{
    let num_blocks = div_ceil(len, block_size);
    let mut ranges: Vec<(usize, usize)> = Vec::new();
    let mut block_idx: usize = 0;
    let mut start: usize = 0;
    while block_idx < num_blocks
        invariant
            block_size > 0,
            num_blocks == spec_div_ceil(len as nat, block_size as nat),
            num_blocks * block_size <= usize::MAX,
            block_idx <= num_blocks,
            start == block_idx * block_size,
            ranges@ == spec_block_ranges(len as nat, block_size as nat).take(block_idx as int),
        decreases num_blocks - block_idx,
    {
        proof {
            vstd::arithmetic::mul::lemma_mul_inequality((block_idx + 1) as int, num_blocks as int, block_size as int);
            assert((block_idx + 1) * block_size == block_idx * block_size + block_size) by (nonlinear_arith);
        }
        let end = if start + block_size <= len { start + block_size } else { len };
        ranges.push((start, end));
        start = start + block_size;
        block_idx = block_idx + 1;
        assert(ranges@ =~= spec_block_ranges(len as nat, block_size as nat).take(block_idx as int));
    }
    assert(ranges@ =~= spec_block_ranges(len as nat, block_size as nat));
    ranges
}

/// The block scale that dequantization applies to value `index` of `data_len` values
/// under `num_scales` block scales, with blocks of the recorded length `block_size` (or, where
/// none was recorded, the length the scales imply); `None` where that block has no scale.
pub fn dequant_block(index: usize, data_len: usize, num_scales: usize, block_size: Option<usize>) -> (r: Option<usize>)
    requires
        index < data_len,
        block_size matches Some(b) ==> b > 0,
    ensures
        r == spec_dequant_block(index as nat, data_len as nat, num_scales as nat, block_size),
{
    let size = match block_size {
        Some(b) => b,
        None => if num_scales > 0 {
            div_ceil(data_len, num_scales)
        } else {
            data_len
        },
    };
    proof {
        if block_size is None && num_scales > 0 {
            assert(size > 0) by {
                vstd::arithmetic::div_mod::lemma_div_pos_is_pos(
                    (data_len + num_scales - 1) as int,
                    num_scales as int,
                );
                vstd::arithmetic::div_mod::lemma_div_is_ordered(
                    num_scales as int,
                    (data_len + num_scales - 1) as int,
                    num_scales as int,
                );
                vstd::arithmetic::div_mod::lemma_div_by_self(num_scales as int);
            }
        }
    }
    let b = index / size;
    if b < num_scales {
        Some(b)
    } else {
        None
    }
}

/// The blocks of per-block quantization start at 0, follow one another without gap,
/// end at `len`, and are never empty.
pub proof fn lemma_block_ranges_partition(len: nat, block_size: nat)
    requires
        block_size > 0,
        spec_div_ceil(len, block_size) * block_size <= usize::MAX,
    ensures
        ({
            let r = spec_block_ranges(len, block_size);
            &&& r.len() == spec_div_ceil(len, block_size)
            &&& r.len() > 0 ==> r[0].0 == 0 && r[r.len() - 1].1 == len
            &&& forall|b: int| 0 <= b < r.len() - 1 ==> #[trigger] r[b].1 == r[b + 1].0
            &&& forall|b: int| 0 <= b < r.len() ==> #[trigger] r[b].0 < r[b].1
        }),
{
    let n = spec_div_ceil(len, block_size);
    let r = spec_block_ranges(len, block_size);
    let bs = block_size as int;
    vstd::arithmetic::div_mod::lemma_fundamental_div_mod((len + bs - 1) as int, bs);
    vstd::arithmetic::div_mod::lemma_mod_pos_bound((len + bs - 1) as int, bs);
    // n blocks of bs cover len, and n - 1 blocks do not.
    assert(n * bs <= len + bs - 1 && n * bs > len - 1) by (nonlinear_arith)
        requires
            len + bs - 1 == bs * n + (len + bs - 1) % bs,
            0 <= (len + bs - 1) % bs < bs,
    ;
    assert forall|b: int| 0 <= b < n implies #[trigger] r[b].0 < r[b].1 && (b < n - 1 ==> r[b].1 == r[b
        + 1].0) && r[b].0 as int == b * bs by {
        assert(b * bs + bs <= n * bs) by (nonlinear_arith)
            requires
                b < n,
                bs > 0,
        ;
        assert(b * bs < len) by (nonlinear_arith)
            requires
                b <= n - 1,
                n * bs <= len + bs - 1,
                bs > 0,
        ;
        assert(b * bs >= 0) by (nonlinear_arith)
            requires
                b >= 0,
                bs > 0,
        ;
        if b < n - 1 {
            assert(b * bs + bs <= (n - 1) * bs) by (nonlinear_arith)
                requires
                    b < n - 1,
                    bs > 0,
            ;
            assert((n - 1) * bs <= len) by (nonlinear_arith)
                requires
                    n * bs <= len + bs - 1,
            ;
            assert((b + 1) * bs == b * bs + bs) by (nonlinear_arith);
        }
    }
    if n > 0 {
        let last = n - 1;
        assert(last * bs + bs == n * bs) by (nonlinear_arith)
            requires
                last == n - 1,
        ;
        assert(r[last].0 as int == last * bs);
        assert(n * bs >= len);
        assert(r[last].1 == len);
        assert(r[0].0 == 0);
    }
    assert forall|b: int| 0 <= b < r.len() - 1 implies #[trigger] r[b].1 == r[b + 1].0 by {
        assert(r[b].0 < r[b].1);
    }
    assert forall|b: int| 0 <= b < r.len() implies #[trigger] r[b].0 < r[b].1 by {
        assert(r[b].0 < r[b].1);
    }
}

/// Per-block dequantization with the recorded block length and one scale per block scales
/// every value back with the scale of the block it was quantized in: the block whose range
/// holds the value.
pub proof fn lemma_dequant_block_matches(len: nat, block_size: usize, index: nat)
    requires
        block_size > 0,
        index < len,
        len <= usize::MAX,
    ensures
        spec_dequant_block(index, len, spec_div_ceil(len, block_size as nat), Some(block_size)) == Some(
            (index / (block_size as nat)) as usize,
        ),
        spec_block_ranges(len, block_size as nat)[(index / (block_size as nat)) as int].0 <= index
            < spec_block_ranges(len, block_size as nat)[(index / (block_size as nat)) as int].1,
{
    let n = spec_div_ceil(len, block_size as nat);
    let bs = block_size as int;
    vstd::arithmetic::div_mod::lemma_fundamental_div_mod((len + bs - 1) as int, bs);
    vstd::arithmetic::div_mod::lemma_mod_pos_bound((len + bs - 1) as int, bs);
    assert(n * bs > len - 1) by (nonlinear_arith)
        requires
            len + bs - 1 == bs * n + (len + bs - 1) % bs,
            0 <= (len + bs - 1) % bs < bs,
    ;
    let q = (index as int) / bs;
    vstd::arithmetic::div_mod::lemma_fundamental_div_mod(index as int, bs);
    vstd::arithmetic::div_mod::lemma_mod_pos_bound(index as int, bs);
    vstd::arithmetic::div_mod::lemma_div_pos_is_pos(index as int, bs);
    assert(q < n) by (nonlinear_arith)
        requires
            index == bs * q + (index as int) % bs,
            (index as int) % bs >= 0,
            index < len,
            n * bs > len - 1,
            bs > 0,
    ;
    assert(q * bs <= index < q * bs + bs) by (nonlinear_arith)
        requires
            index == bs * q + (index as int) % bs,
            0 <= (index as int) % bs < bs,
    ;
    assert(q * bs >= 0) by (nonlinear_arith)
        requires
            q >= 0,
            bs > 0,
    ;
}

/// Without a recorded block length, dequantization of `len` values under `num_scales > 0`
/// scales takes the shortest block length `d` whose `num_scales` blocks cover the values
/// (`d * num_scales >= len` while `(d - 1) * num_scales < len`): value `index` is scaled
/// with scale `index / d`, exactly as if `d` had been recorded, and it lies in that block of
/// the layout that per-block quantization with blocks of `d` cuts.
pub proof fn lemma_inferred_block_size(len: nat, num_scales: nat, index: nat, d: nat)
    requires
        num_scales > 0,
        index < len,
        len <= usize::MAX,
        d * num_scales >= len,
        d * num_scales < len + num_scales,
    ensures
        d > 0,
        spec_dequant_block(index, len, num_scales, None) == Some((index / d) as usize),
        spec_dequant_block(index, len, num_scales, None) == spec_dequant_block(
            index,
            len,
            num_scales,
            Some(d as usize),
        ),
        spec_block_ranges(len, d)[(index / d) as int].0 <= index < spec_block_ranges(len, d)[(index
            / d) as int].1,
{
    let s = num_scales as int;
    let di = d as int;
    assert(d > 0) by (nonlinear_arith)
        requires
            d * num_scales >= len,
            index < len,
    ;
    assert(d <= len) by (nonlinear_arith)
        requires
            d * num_scales < len + num_scales,
            num_scales > 0,
            d > 0,
            len > 0,
    ;
    // The rounded-up quotient of `len` by `num_scales` is `d`.
    let r = (len + s - 1) - s * di;
    assert(0 <= r < s) by (nonlinear_arith)
        requires
            r == (len + s - 1) - s * di,
            di * s >= len,
            di * s < len + s,
    ;
    vstd::arithmetic::div_mod::lemma_fundamental_div_mod_converse((len + s - 1) as int, s, di, r);
    assert(spec_div_ceil(len, num_scales) == d);
    // `index / d` names one of the `num_scales` scales.
    vstd::arithmetic::div_mod::lemma_fundamental_div_mod(index as int, di);
    vstd::arithmetic::div_mod::lemma_mod_pos_bound(index as int, di);
    let q = (index as int) / di;
    assert(q < s) by (nonlinear_arith)
        requires
            index == di * q + (index as int) % di,
            (index as int) % di >= 0,
            index < len,
            di * s >= len,
            di > 0,
    ;
    lemma_dequant_block_matches(len, d as usize, index);
}

/// Without any block scale, no value has a block scale to be read back with, whatever
/// (positive) block length was recorded.
pub proof fn lemma_no_scales(index: nat, len: nat, recorded: Option<usize>)
    requires
        index < len,
        recorded matches Some(b) ==> b > 0,
    ensures
        spec_dequant_block(index, len, 0, recorded) is None,
{
    let d = spec_dequant_block_size(len, 0, recorded);
    assert(index / d >= 0) by (nonlinear_arith)
        requires
            d > 0,
    ;
}

} // verus!
