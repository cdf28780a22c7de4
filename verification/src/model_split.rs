use vstd::prelude::*;

verus! {

/// Where stage `i` starts when `count` items are split over `stages` stages: every stage
/// gets `count / stages` items and the first `count % stages` stages one more.
pub open spec fn spec_stage_start(count: nat, stages: nat, i: nat) -> nat {
    let base = count / stages;
    let rem = count % stages;
    i * base + (if i < rem { i } else { rem })
}

/// The number of stages `split_evenly` uses: no more than there are items.
pub open spec fn spec_actual_stages(count: nat, num_stages: nat) -> nat {
    if num_stages == 0 || count == 0 {
        0
    } else if num_stages < count {
        num_stages
    } else {
        count
    }
}

/// The half-open ranges `split_evenly` returns.
pub open spec fn spec_split_evenly(count: nat, num_stages: nat) -> Seq<(usize, usize)> {
    let n = spec_actual_stages(count, num_stages);
    Seq::new(
        n,
        |i: int|
            (
                spec_stage_start(count, n, i as nat) as usize,
                spec_stage_start(count, n, (i + 1) as nat) as usize,
            ),
    )
}

proof fn lemma_stage_start_step(count: nat, stages: nat, i: nat)
    requires
        stages > 0,
        i < stages,
    ensures
        spec_stage_start(count, stages, i + 1) == spec_stage_start(count, stages, i) + count / stages + (
        if i < count % stages { 1nat } else { 0nat }),
{
    let base = count / stages;
    assert((i + 1) * base == i * base + base) by (nonlinear_arith);
}

proof fn lemma_stage_start_bound(count: nat, stages: nat, i: nat)
    requires
        stages > 0,
        i <= stages,
    ensures
        spec_stage_start(count, stages, i) <= count,
        i == stages ==> spec_stage_start(count, stages, i) == count,
{
    let base = count / stages;
    let rem = count % stages;
    vstd::arithmetic::div_mod::lemma_fundamental_div_mod(count as int, stages as int);
    vstd::arithmetic::div_mod::lemma_mod_pos_bound(count as int, stages as int);
    assert(i * base <= stages * base) by (nonlinear_arith) requires i <= stages;
    if i < rem {
        assert(i * base + i <= stages * base + rem);
    }
}

/// Splits `count` items into contiguous ranges over at most `num_stages` stages, as evenly
/// as possible; the first `count % stages` ranges are one item longer.
pub fn split_evenly(count: usize, num_stages: usize) -> (r: Vec<(usize, usize)>)
    ensures
        r@ == spec_split_evenly(count as nat, num_stages as nat),
{
    let mut ranges: Vec<(usize, usize)> = Vec::new();
    if num_stages == 0 || count == 0 {
        assert(ranges@ =~= spec_split_evenly(count as nat, num_stages as nat));
        return ranges;
    }
    let actual_stages = if num_stages < count { num_stages } else { count };
    let base = count / actual_stages;
    let remainder = count % actual_stages;
    let mut offset: usize = 0;
    let mut i: usize = 0;
    while i < actual_stages
        invariant
            actual_stages == spec_actual_stages(count as nat, num_stages as nat),
            actual_stages > 0,
            base == count / actual_stages,
            remainder == count % actual_stages,
            i <= actual_stages,
            offset == spec_stage_start(count as nat, actual_stages as nat, i as nat),
            ranges@ == spec_split_evenly(count as nat, num_stages as nat).take(i as int),
        decreases actual_stages - i,
    {
        proof {
            lemma_stage_start_step(count as nat, actual_stages as nat, i as nat);
            lemma_stage_start_bound(count as nat, actual_stages as nat, (i + 1) as nat);
        }
        let extra: usize = if i < remainder { 1 } else { 0 };
        let len = base + extra;
        ranges.push((offset, offset + len));
        offset = offset + len;
        i = i + 1;
        assert(ranges@ =~= spec_split_evenly(count as nat, num_stages as nat).take(i as int));
    }
    assert(spec_split_evenly(count as nat, num_stages as nat).take(i as int) =~= spec_split_evenly(
        count as nat,
        num_stages as nat,
    ));
    ranges
}

/// The ranges of `split_evenly` start at 0, follow one another without gap or overlap,
/// end at `count`, are never empty, and differ in length by at most one.
pub proof fn lemma_split_evenly_partition(count: nat, num_stages: nat)
    requires
        count > 0,
        num_stages > 0,
        count <= usize::MAX,
    ensures
        ({
            let r = spec_split_evenly(count, num_stages);
            &&& r.len() == spec_actual_stages(count, num_stages)
            &&& r[0].0 == 0
            &&& r[r.len() - 1].1 == count
            &&& forall|i: int| 0 <= i < r.len() - 1 ==> #[trigger] r[i].1 == r[i + 1].0
            &&& forall|i: int| 0 <= i < r.len() ==> #[trigger] r[i].0 < r[i].1
            &&& forall|i: int, j: int|
                0 <= i < r.len() && 0 <= j < r.len() ==> (#[trigger] r[i]).1 - r[i].0 <= (#[trigger] r[j]).1 - r[j].0 + 1
        }),
{
    let n = spec_actual_stages(count, num_stages);
    let r = spec_split_evenly(count, num_stages);
    assert(n > 0 && n <= count);
    let base = count / n;
    assert(base >= 1) by {
        vstd::arithmetic::div_mod::lemma_div_is_ordered(n as int, count as int, n as int);
        vstd::arithmetic::div_mod::lemma_div_by_self(n as int);
    }
    assert forall|i: int| 0 <= i <= n implies #[trigger] spec_stage_start(count, n, i as nat) <= count by {
        lemma_stage_start_bound(count, n, i as nat);
    }
    lemma_stage_start_bound(count, n, n);
    assert forall|i: int| 0 <= i < n implies #[trigger] spec_stage_start(count, n, (i + 1) as nat) == spec_stage_start(
        count,
        n,
        i as nat,
    ) + base + (if i < count % n { 1nat } else { 0nat }) by {
        lemma_stage_start_step(count, n, i as nat);
    }
}

} // verus!
