use vstd::prelude::*;
use vstd::arithmetic::power::pow;

verus! {

/// The largest power of `base` that is at most `n`, for `base >= 2` and `n >= 1`.
pub open spec fn spec_largest_power(n: nat, base: nat) -> nat
    decreases n,
{
    if base < 2 || n < base {
        1
    } else {
        proof {
            vstd::arithmetic::div_mod::lemma_div_decreases(n as int, base as int);
        }
        base * spec_largest_power(n / base, base)
    }
}

/// The dimensions that `numel` dequantized values get in a tensor of rank `rank`: all of
/// them along the one axis of a rank-1 tensor; otherwise `rank` along each of the first
/// `rank - 1` axes and, along the last, `numel` divided by the largest power of `rank` not
/// above it.
pub open spec fn spec_fp8_tensor_dims(numel: nat, rank: nat) -> Seq<usize> {
    if rank == 1 {
        seq![numel as usize]
    } else {
        Seq::new((rank - 1) as nat, |i: int| rank as usize).push(
            (numel / spec_largest_power(numel, rank)) as usize,
        )
    }
}

proof fn lemma_largest_power(n: nat, base: nat, p: nat, k: nat)
    requires
        base >= 2,
        p == pow(base as int, k),
        p <= n,
        n < p * base,
    ensures
        spec_largest_power(n, base) == p,
    decreases n,
{
    vstd::arithmetic::power::lemma_pow_positive(base as int, k);
    if n < base {
        if k > 0 {
            vstd::arithmetic::power::lemma_pow_increases(base as nat, 1, k);
            vstd::arithmetic::power::lemma_pow1(base as int);
            assert(false);
        }
        vstd::arithmetic::power::lemma_pow0(base as int);
    } else {
        if k == 0 {
            vstd::arithmetic::power::lemma_pow0(base as int);
            assert(p == 1);
            assert(p * base == base) by (nonlinear_arith)
                requires
                    p == 1,
            ;
            assert(false);
        }
        let q = pow(base as int, (k - 1) as nat);
        vstd::arithmetic::power::lemma_pow_positive(base as int, (k - 1) as nat);
        vstd::arithmetic::power::lemma_pow_adds(base as int, (k - 1) as nat, 1);
        vstd::arithmetic::power::lemma_pow1(base as int);
        assert(p == q * base);
        let m = n / base;
        vstd::arithmetic::div_mod::lemma_fundamental_div_mod(n as int, base as int);
        vstd::arithmetic::div_mod::lemma_mod_pos_bound(n as int, base as int);
        assert(q <= m && m < q * base) by (nonlinear_arith)
            requires
                p == q * base,
                p <= n,
                n < p * base,
                n == base * m + n % base,
                0 <= n % base < base,
                base >= 2,
                q >= 1,
        ;
        lemma_largest_power(m as nat, base, q as nat, (k - 1) as nat);
        assert(base * q == p) by (nonlinear_arith)
            requires
                p == q * base,
        ;
    }
}

/// The dimensions that `numel` dequantized values get in a tensor of rank `rank`.
pub fn fp8_tensor_dims(numel: usize, rank: usize) -> (r: Vec<usize>)
    requires
        rank >= 1,
        rank >= 2 ==> numel >= 1,
    ensures
        r@ == spec_fp8_tensor_dims(numel as nat, rank as nat),
{
    if rank == 1 {
        let mut dims: Vec<usize> = Vec::new();
        dims.push(numel);
        assert(dims@ =~= spec_fp8_tensor_dims(numel as nat, rank as nat));
        return dims;
    }
    let mut p: usize = 1;
    let ghost mut k: nat = 0;
    proof {
        vstd::arithmetic::power::lemma_pow0(rank as int);
    }
    while p <= numel / rank
        invariant
            rank >= 2,
            numel >= 1,
            p == pow(rank as int, k),
            1 <= p <= numel,
        decreases numel - p,
    {
        proof {
            vstd::arithmetic::power::lemma_pow_adds(rank as int, k, 1);
            vstd::arithmetic::power::lemma_pow1(rank as int);
            vstd::arithmetic::div_mod::lemma_fundamental_div_mod(numel as int, rank as int);
            vstd::arithmetic::div_mod::lemma_mod_pos_bound(numel as int, rank as int);
            assert(p * rank <= numel && p * rank > p) by (nonlinear_arith)
                requires
                    p <= numel / rank,
                    numel == rank * (numel / rank) + numel % rank,
                    numel % rank >= 0,
                    rank >= 2,
                    p >= 1,
            ;
            k = k + 1;
        }
        p = p * rank;
    }
    proof {
        vstd::arithmetic::div_mod::lemma_fundamental_div_mod(numel as int, rank as int);
        vstd::arithmetic::div_mod::lemma_mod_pos_bound(numel as int, rank as int);
        assert(numel < p * rank) by (nonlinear_arith)
            requires
                p > numel / rank,
                numel == rank * (numel / rank) + numel % rank,
                numel % rank < rank,
        ;
        lemma_largest_power(numel as nat, rank as nat, p as nat, k);
    }
    let mut dims: Vec<usize> = Vec::new();
    let mut i: usize = 0;
    while i < rank - 1
        invariant
            rank >= 2,
            i <= rank - 1,
            dims@ == Seq::new(i as nat, |j: int| rank as usize),
        decreases rank - 1 - i,
    {
        dims.push(rank);
        i = i + 1;
        assert(dims@ =~= Seq::new(i as nat, |j: int| rank as usize));
    }
    dims.push(numel / p);
    assert(dims@ =~= spec_fp8_tensor_dims(numel as nat, rank as nat));
    dims
}

} // verus!
