use vstd::prelude::*;

verus! {

/// One step of a pipeline stage: the forward or the backward pass of a microbatch.
#[derive(Debug, Clone, Copy, PartialEq, Eq, Structural)]
pub enum Op {
    Forward(usize),
    Backward(usize),
}

/// The GPipe schedule: every microbatch's forward pass through all stages, then every
/// microbatch's backward pass through the stages in reverse.
#[derive(Debug, Clone, Copy, PartialEq, Eq, Structural)]
pub struct GpipeSchedule;

/// The one-forward-one-backward schedule: after a warm-up of forward passes, each stage
/// alternates a forward and a backward pass, then drains the remaining backward passes.
#[derive(Debug, Clone, Copy, PartialEq, Eq, Structural)]
pub struct OneF1BSchedule;

/// A pipeline schedule.
#[derive(Debug, Clone, Copy, PartialEq, Eq, Structural)]
pub enum ScheduleKind {
    Gpipe(GpipeSchedule),
    OneF1B(OneF1BSchedule),
}

// ---------------------------------------------------------------------------------------
// 1F1B
// ---------------------------------------------------------------------------------------

/// The number of forward passes `stage` runs before its first backward pass: one for each
/// later stage, but no more than there are microbatches.
pub open spec fn spec_warmup(num_stages: nat, num_microbatches: nat, stage: nat) -> nat {
    let ahead = (num_stages - stage - 1) as nat;
    if ahead < num_microbatches {
        ahead
    } else {
        num_microbatches
    }
}

/// The operation at position `t` of a 1F1B stage schedule with `warmup` warm-up forwards
/// over `num_microbatches` microbatches: `warmup` forwards, then alternating forward and
/// backward, then the remaining backwards.
pub open spec fn spec_op_at(warmup: nat, num_microbatches: nat, t: nat) -> Op {
    if t < warmup {
        Op::Forward(t as usize)
    } else if t < 2 * num_microbatches - warmup {
        let j = (t - warmup) as nat;
        if j % 2 == 0 {
            Op::Forward((warmup + j / 2) as usize)
        } else {
            Op::Backward((j / 2) as usize)
        }
    } else {
        Op::Backward((t - num_microbatches) as usize)
    }
}

/// The operations of `stage` in the 1F1B schedule, in order.
pub open spec fn spec_stage_ops(num_stages: nat, num_microbatches: nat, stage: nat) -> Seq<Op> {
    let w = spec_warmup(num_stages, num_microbatches, stage);
    Seq::new(2 * num_microbatches, |t: int| spec_op_at(w, num_microbatches, t as nat))
}

/// Where the forward pass of microbatch `mb` stands in a 1F1B stage schedule.
pub open spec fn spec_forward_position(warmup: nat, mb: nat) -> nat {
    if mb < warmup {
        mb
    } else {
        (2 * mb - warmup) as nat
    }
}

/// Where the backward pass of microbatch `mb` stands in a 1F1B stage schedule.
pub open spec fn spec_backward_position(warmup: nat, num_microbatches: nat, mb: nat) -> nat {
    if mb < num_microbatches - warmup {
        warmup + 2 * mb + 1
    } else {
        mb + num_microbatches
    }
}

/// The round-robin order in which the 1F1B schedule runs: in round `t` every stage, in
/// order, runs the operation at position `t` of its schedule. Entry `k` is the stage and
/// operation of round `k / num_stages`, stage `k % num_stages`.
pub open spec fn spec_onef1b_order(num_stages: nat, num_microbatches: nat) -> Seq<(usize, Op)> {
    Seq::new(
        2 * num_microbatches * num_stages,
        |k: int|
            (
                (k % num_stages as int) as usize,
                spec_op_at(
                    spec_warmup(num_stages, num_microbatches, (k % num_stages as int) as nat),
                    num_microbatches,
                    (k / num_stages as int) as nat,
                ),
            ),
    )
}

proof fn lemma_op_at_forward(warmup: nat, nm: nat, mb: nat)
    requires
        nm <= usize::MAX,
        warmup <= nm,
        mb < nm,
    ensures
        spec_forward_position(warmup, mb) < 2 * nm,
        spec_op_at(warmup, nm, spec_forward_position(warmup, mb)) == Op::Forward(mb as usize),
        forall|t: nat| t < 2 * nm && #[trigger] spec_op_at(warmup, nm, t) == Op::Forward(mb as usize) ==> t
            == spec_forward_position(warmup, mb),
{
    let p = spec_forward_position(warmup, mb);
    if mb >= warmup {
        let j = (p - warmup) as nat;
        assert(j == 2 * (mb - warmup));
        assert(j % 2 == 0 && j / 2 == mb - warmup);
    }
    assert forall|t: nat| t < 2 * nm && #[trigger] spec_op_at(warmup, nm, t) == Op::Forward(mb as usize)
        implies t == p by {
        if t >= warmup && t < 2 * nm - warmup {
            let j = (t - warmup) as nat;
            assert(j % 2 == 0);
            assert(j == 2 * (j / 2));
        }
    }
}

proof fn lemma_op_at_backward(warmup: nat, nm: nat, mb: nat)
    requires
        nm <= usize::MAX,
        warmup <= nm,
        mb < nm,
    ensures
        spec_backward_position(warmup, nm, mb) < 2 * nm,
        spec_op_at(warmup, nm, spec_backward_position(warmup, nm, mb)) == Op::Backward(mb as usize),
        spec_forward_position(warmup, mb) < spec_backward_position(warmup, nm, mb),
        forall|t: nat| t < 2 * nm && #[trigger] spec_op_at(warmup, nm, t) == Op::Backward(mb as usize) ==> t
            == spec_backward_position(warmup, nm, mb),
{
    let p = spec_backward_position(warmup, nm, mb);
    if mb < nm - warmup {
        let j = (p - warmup) as nat;
        assert(j == 2 * mb + 1);
        assert(j % 2 == 1 && j / 2 == mb);
    }
    assert forall|t: nat| t < 2 * nm && #[trigger] spec_op_at(warmup, nm, t) == Op::Backward(mb as usize)
        implies t == p by {
        if t >= warmup && t < 2 * nm - warmup {
            let j = (t - warmup) as nat;
            assert(j % 2 == 1);
            assert(j == 2 * (j / 2) + 1);
        }
    }
}

proof fn lemma_op_at_range(warmup: nat, nm: nat, t: nat)
    requires
        nm <= usize::MAX,
        warmup <= nm,
        t < 2 * nm,
    ensures
        match spec_op_at(warmup, nm, t) {
            Op::Forward(mb) => mb < nm,
            Op::Backward(mb) => mb < nm,
        },
{
    if t >= warmup && t < 2 * nm - warmup {
        let j = (t - warmup) as nat;
        assert(j / 2 <= j);
    }
}

/// Stage `stage` of a 1F1B schedule warms up with one forward pass for each later stage, but
/// no more than there are microbatches: with `w = min(num_stages - stage - 1,
/// num_microbatches)`, its first `w` operations are the forward passes of microbatches
/// `0..w` in order. Its first backward pass, of microbatch 0, comes right after one more
/// forward pass when microbatches remain after the warm-up, and right after the warm-up
/// otherwise; every operation before it is the forward pass of the microbatch numbered by
/// its position.
pub proof fn lemma_onef1b_warmup(num_stages: nat, num_microbatches: nat, stage: nat)
    requires
        stage < num_stages,
        num_microbatches > 0,
    ensures
        ({
            let ops = spec_stage_ops(num_stages, num_microbatches, stage);
            let ahead = (num_stages - stage - 1) as nat;
            let w = if ahead < num_microbatches { ahead } else { num_microbatches };
            let first_backward = if w < num_microbatches { w + 1 } else { w };
            &&& ops.len() == 2 * num_microbatches
            &&& forall|t: int| 0 <= t < first_backward ==> #[trigger] ops[t] == Op::Forward(t as usize)
            &&& ops[first_backward as int] == Op::Backward(0)
        }),
{
    let ops = spec_stage_ops(num_stages, num_microbatches, stage);
    let w = spec_warmup(num_stages, num_microbatches, stage);
    assert forall|t: int| 0 <= t < (if w < num_microbatches { w + 1 } else { w }) implies #[trigger] ops[t]
        == Op::Forward(t as usize) by {
        if t >= w {
            let j = (t - w) as nat;
            assert(j == 0);
        }
    }
    if w < num_microbatches {
        let j = (w + 1 - w) as nat;
        assert(j == 1);
        assert(j % 2 == 1 && j / 2 == 0);
    }
}

/// Every stage of the 1F1B schedule runs the forward and the backward pass of each
/// microbatch exactly once and nothing else, the forward before the backward, and the
/// forwards in microbatch order.
pub proof fn lemma_onef1b_each_microbatch_once(num_stages: usize, num_microbatches: usize, stage: nat, mb: nat)
    requires
        stage < num_stages,
        mb < num_microbatches,
    ensures
        ({
            let ops = spec_stage_ops(num_stages as nat, num_microbatches as nat, stage);
            let w = spec_warmup(num_stages as nat, num_microbatches as nat, stage);
            let f = spec_forward_position(w, mb);
            let b = spec_backward_position(w, num_microbatches as nat, mb);
            &&& ops.len() == 2 * num_microbatches
            &&& f < b < ops.len()
            &&& ops[f as int] == Op::Forward(mb as usize)
            &&& ops[b as int] == Op::Backward(mb as usize)
            &&& forall|t: int| 0 <= t < ops.len() && ops[t] == Op::Forward(mb as usize) ==> t == f
            &&& forall|t: int| 0 <= t < ops.len() && ops[t] == Op::Backward(mb as usize) ==> t == b
            &&& forall|t: int|
                0 <= t < ops.len() ==> match #[trigger] ops[t] {
                    Op::Forward(m) => m < num_microbatches,
                    Op::Backward(m) => m < num_microbatches,
                }
            &&& forall|m: nat| m < mb ==> #[trigger] spec_forward_position(w, m) < f
        }),
{
    let nm = num_microbatches as nat;
    let ops = spec_stage_ops(num_stages as nat, nm, stage);
    let w = spec_warmup(num_stages as nat, nm, stage);
    lemma_op_at_forward(w, nm, mb);
    lemma_op_at_backward(w, nm, mb);
    assert forall|t: int| 0 <= t < ops.len() && ops[t] == Op::Forward(mb as usize) implies t
        == spec_forward_position(w, mb) by {
        assert(spec_op_at(w, nm, t as nat) == Op::Forward(mb as usize));
    }
    assert forall|t: int| 0 <= t < ops.len() && ops[t] == Op::Backward(mb as usize) implies t
        == spec_backward_position(w, nm, mb) by {
        assert(spec_op_at(w, nm, t as nat) == Op::Backward(mb as usize));
    }
    assert forall|t: int| 0 <= t < ops.len() implies match #[trigger] ops[t] {
        Op::Forward(m) => m < num_microbatches,
        Op::Backward(m) => m < num_microbatches,
    } by {
        lemma_op_at_range(w, nm, t as nat);
    }
}

/// In the round-robin order of the 1F1B schedule, a stage's forward pass of a microbatch
/// never comes before the previous stage's: when stage `stage` runs `Forward(mb)` in round
/// `t`, stage `stage - 1` ran `Forward(mb)` in a round no later than `t`, hence earlier.
pub proof fn lemma_onef1b_forward_dependency(num_stages: usize, num_microbatches: usize, stage: nat, t: nat)
    requires
        0 < stage < num_stages,
        t < 2 * num_microbatches,
        spec_stage_ops(num_stages as nat, num_microbatches as nat, stage)[t as int] is Forward,
    ensures
        ({
            let nm = num_microbatches as nat;
            let mb = spec_stage_ops(num_stages as nat, nm, stage)[t as int]->Forward_0;
            let prev = spec_forward_position(spec_warmup(num_stages as nat, nm, (stage - 1) as nat), mb as nat);
            &&& prev <= t
            &&& spec_stage_ops(num_stages as nat, nm, (stage - 1) as nat)[prev as int] == Op::Forward(mb)
        }),
{
    let nm = num_microbatches as nat;
    let w = spec_warmup(num_stages as nat, nm, stage);
    let wp = spec_warmup(num_stages as nat, nm, (stage - 1) as nat);
    let mb = spec_stage_ops(num_stages as nat, nm, stage)[t as int]->Forward_0;
    lemma_op_at_range(w, nm, t);
    lemma_op_at_forward(w, nm, mb as nat);
    lemma_op_at_forward(wp, nm, mb as nat);
    assert(spec_op_at(w, nm, t) == Op::Forward(mb));
    assert(t == spec_forward_position(w, mb as nat));
    assert(wp >= w);
}

/// Step `j` of `order` produces the activation that step `k` consumes: step `k` is the
/// forward pass of a microbatch at a stage after the first, and step `j` is the forward pass
/// of the same microbatch at the previous stage.
pub open spec fn feeds(order: Seq<(usize, Op)>, j: int, k: int) -> bool {
    &&& order[k].0 > 0
    &&& order[k].1 is Forward
    &&& order[j] == ((order[k].0 - 1) as usize, order[k].1)
}

/// For each step of `order`, the latest earlier step that produces the activation it
/// consumes, or `None` where no earlier step does (in particular for the first stage's
/// forward passes and for backward passes).
pub fn activation_sources(order: &Vec<(usize, Op)>) -> (r: Vec<Option<usize>>)
    ensures
        r@.len() == order@.len(),
        forall|k: int|
            0 <= k < order@.len() ==> match #[trigger] r@[k] {
                Some(j) => 0 <= j < k && feeds(order@, j as int, k) && forall|i: int|
                    j < i < k ==> !feeds(order@, i, k),
                None => forall|i: int| 0 <= i < k ==> !feeds(order@, i, k),
            },
{
    let mut sources: Vec<Option<usize>> = Vec::new();
    let mut k: usize = 0;
    while k < order.len()
        invariant
            k <= order@.len(),
            sources@.len() == k,
            forall|m: int|
                0 <= m < k ==> match #[trigger] sources@[m] {
                    Some(j) => 0 <= j < m && feeds(order@, j as int, m) && forall|i: int|
                        j < i < m ==> !feeds(order@, i, m),
                    None => forall|i: int| 0 <= i < m ==> !feeds(order@, i, m),
                },
        decreases order@.len() - k,
    {
        let (stage, op) = order[k];
        let mut found: Option<usize> = None;
        if stage > 0 {
            if let Op::Forward(_) = op {
                let mut j: usize = k;
                while j > 0
                    invariant_except_break
                        found is None,
                    invariant
                        j <= k,
                        k < order@.len(),
                        stage == order@[k as int].0,
                        op == order@[k as int].1,
                        stage > 0,
                        op is Forward,
                        forall|i: int| j <= i < k ==> !feeds(order@, i, k as int),
                    ensures
                        found matches Some(f) ==> f < k && feeds(order@, f as int, k as int) && forall|i: int|
                            f < i < k ==> !feeds(order@, i, k as int),
                        found is None ==> forall|i: int| 0 <= i < k ==> !feeds(order@, i, k as int),
                    decreases j,
                {
                    let (s, o) = order[j - 1];
                    if s == stage - 1 && o == op {
                        found = Some(j - 1);
                        break;
                    }
                    j = j - 1;
                }
            }
        }
        sources.push(found);
        k = k + 1;
    }
    sources
}

/// In the round-robin order of the 1F1B schedule, whenever a stage after the first runs the
/// forward pass of a microbatch, the previous stage has already run it.
pub proof fn lemma_onef1b_order_respects_activations(num_stages: usize, num_microbatches: usize, k: int)
    requires
        num_stages > 0,
        0 <= k < spec_onef1b_order(num_stages as nat, num_microbatches as nat).len(),
        spec_onef1b_order(num_stages as nat, num_microbatches as nat)[k].0 > 0,
        spec_onef1b_order(num_stages as nat, num_microbatches as nat)[k].1 is Forward,
    ensures
        exists|j: int|
            0 <= j < k && #[trigger] spec_onef1b_order(num_stages as nat, num_microbatches as nat)[j] == (
                (spec_onef1b_order(num_stages as nat, num_microbatches as nat)[k].0 - 1) as usize,
                spec_onef1b_order(num_stages as nat, num_microbatches as nat)[k].1,
            ),
{
    let p = num_stages as int;
    let nm = num_microbatches as nat;
    let order = spec_onef1b_order(num_stages as nat, nm);
    let s = k % p;
    let t = k / p;
    vstd::arithmetic::div_mod::lemma_fundamental_div_mod(k, p);
    vstd::arithmetic::div_mod::lemma_mod_pos_bound(k, p);
    assert(0 <= t < 2 * nm) by {
        vstd::arithmetic::div_mod::lemma_div_pos_is_pos(k, p);
        vstd::arithmetic::div_mod::lemma_div_is_ordered(k, (2 * nm * num_stages) as int, p);
        vstd::arithmetic::div_mod::lemma_div_multiples_vanish((2 * nm) as int, p);
        assert(k < 2 * nm * num_stages);
        vstd::arithmetic::div_mod::lemma_div_by_multiple_is_strongly_ordered(
            k,
            (2 * nm * num_stages) as int,
            (2 * nm) as int,
            p,
        );
    }
    assert(spec_stage_ops(num_stages as nat, nm, s as nat)[t] == order[k].1);
    lemma_onef1b_forward_dependency(num_stages, num_microbatches, s as nat, t as nat);
    let mb = order[k].1->Forward_0;
    let prev = spec_forward_position(spec_warmup(num_stages as nat, nm, (s - 1) as nat), mb as nat);
    let j = prev * p + (s - 1);
    vstd::arithmetic::div_mod::lemma_fundamental_div_mod_converse(j, p, prev as int, s - 1);
    assert(prev * p <= t * p) by {
        vstd::arithmetic::mul::lemma_mul_inequality(prev as int, t, p);
    }
    assert(j < k);
    assert(j >= 0) by {
        vstd::arithmetic::mul::lemma_mul_nonnegative(prev as int, p);
    }
    assert(order[j] == ((s - 1) as usize, order[k].1));
    assert(0 <= j < k && order[j] == ((order[k].0 - 1) as usize, order[k].1));
}

/// In the round-robin order of the 1F1B schedule, a stage runs the backward pass of a
/// microbatch only after it ran the forward pass of the same microbatch.
pub proof fn lemma_onef1b_order_backward_after_forward(num_stages: usize, num_microbatches: usize, k: int)
    requires
        num_stages > 0,
        0 <= k < spec_onef1b_order(num_stages as nat, num_microbatches as nat).len(),
        spec_onef1b_order(num_stages as nat, num_microbatches as nat)[k].1 is Backward,
    ensures
        exists|j: int|
            0 <= j < k && #[trigger] spec_onef1b_order(num_stages as nat, num_microbatches as nat)[j] == (
                spec_onef1b_order(num_stages as nat, num_microbatches as nat)[k].0,
                Op::Forward(spec_onef1b_order(num_stages as nat, num_microbatches as nat)[k].1->Backward_0),
            ),
{
    let p = num_stages as int;
    let nm = num_microbatches as nat;
    let order = spec_onef1b_order(num_stages as nat, nm);
    let s = k % p;
    let t = k / p;
    vstd::arithmetic::div_mod::lemma_fundamental_div_mod(k, p);
    vstd::arithmetic::div_mod::lemma_mod_pos_bound(k, p);
    vstd::arithmetic::div_mod::lemma_div_pos_is_pos(k, p);
    assert(t < 2 * nm) by {
        vstd::arithmetic::div_mod::lemma_div_by_multiple_is_strongly_ordered(
            k,
            (2 * nm * num_stages) as int,
            (2 * nm) as int,
            p,
        );
        vstd::arithmetic::div_mod::lemma_div_multiples_vanish((2 * nm) as int, p);
    }
    let w = spec_warmup(num_stages as nat, nm, s as nat);
    let mb = order[k].1->Backward_0;
    lemma_op_at_range(w, nm, t as nat);
    lemma_op_at_backward(w, nm, mb as nat);
    lemma_op_at_forward(w, nm, mb as nat);
    assert(spec_op_at(w, nm, t as nat) == Op::Backward(mb));
    let f = spec_forward_position(w, mb as nat);
    let j = f * p + s;
    vstd::arithmetic::div_mod::lemma_fundamental_div_mod_converse(j, p, f as int, s);
    assert(f * p < t * p) by {
        vstd::arithmetic::mul::lemma_mul_strict_inequality(f as int, t, p);
    }
    assert(j >= 0) by {
        vstd::arithmetic::mul::lemma_mul_nonnegative(f as int, p);
    }
    assert(order[j] == (s as usize, Op::Forward(mb)));
    assert(0 <= j < k);
}

/// In the GPipe order every stage runs the forward and the backward pass of each microbatch
/// exactly once: the forward pass at position `mb * num_stages + stage`, the backward pass at
/// position `num_microbatches * num_stages + mb * num_stages + (num_stages - 1 - stage)`.
pub proof fn lemma_gpipe_each_microbatch_once(num_stages: usize, num_microbatches: usize, stage: int, mb: int)
    requires
        0 <= stage < num_stages,
        0 <= mb < num_microbatches,
    ensures
        ({
            let order = spec_gpipe_order(num_stages as nat, num_microbatches as nat);
            let half = num_microbatches * num_stages;
            let f = mb * num_stages + stage;
            let b = half + mb * num_stages + (num_stages - 1 - stage);
            &&& 0 <= f < half <= b < order.len()
            &&& order[f] == (stage as usize, Op::Forward(mb as usize))
            &&& order[b] == (stage as usize, Op::Backward(mb as usize))
            &&& forall|i: int| 0 <= i < order.len() && order[i] == (stage as usize, Op::Forward(mb as usize)) ==> i == f
            &&& forall|i: int| 0 <= i < order.len() && order[i] == (stage as usize, Op::Backward(mb as usize)) ==> i == b
        }),
{
    let p = num_stages as int;
    let n = num_microbatches as int;
    let order = spec_gpipe_order(num_stages as nat, num_microbatches as nat);
    let half = n * p;
    let f = mb * p + stage;
    let b = half + mb * p + (p - 1 - stage);
    assert(mb * p + p <= n * p) by {
        vstd::arithmetic::mul::lemma_mul_inequality(mb + 1, n, p);
        vstd::arithmetic::mul::lemma_mul_is_distributive_add_other_way(p, mb, 1);
    }
    assert(mb * p >= 0) by {
        vstd::arithmetic::mul::lemma_mul_nonnegative(mb, p);
    }
    vstd::arithmetic::div_mod::lemma_fundamental_div_mod_converse(f, p, mb, stage);
    vstd::arithmetic::div_mod::lemma_fundamental_div_mod_converse(b - half, p, mb, p - 1 - stage);
    assert forall|i: int|
        0 <= i < order.len() && order[i] == (stage as usize, Op::Forward(mb as usize)) implies i == f by {
        assert(i < half);
        let q = i / p;
        let r = i % p;
        vstd::arithmetic::div_mod::lemma_fundamental_div_mod(i, p);
        vstd::arithmetic::div_mod::lemma_mod_pos_bound(i, p);
        vstd::arithmetic::div_mod::lemma_div_pos_is_pos(i, p);
        assert(q < n) by (nonlinear_arith)
            requires
                i == p * q + r,
                r >= 0,
                i < n * p,
                p > 0,
        ;
        assert(r == stage && q == mb);
        assert(i == f) by (nonlinear_arith)
            requires
                i == p * q + r,
                r == stage,
                q == mb,
                f == mb * p + stage,
        ;
    }
    assert forall|i: int|
        0 <= i < order.len() && order[i] == (stage as usize, Op::Backward(mb as usize)) implies i == b by {
        assert(i >= half);
        let ii = i - half;
        let q = ii / p;
        let r = ii % p;
        vstd::arithmetic::div_mod::lemma_fundamental_div_mod(ii, p);
        vstd::arithmetic::div_mod::lemma_mod_pos_bound(ii, p);
        vstd::arithmetic::div_mod::lemma_div_pos_is_pos(ii, p);
        assert(ii < n * p);
        assert(q < n) by (nonlinear_arith)
            requires
                ii == p * q + r,
                r >= 0,
                ii < n * p,
                p > 0,
        ;
        assert(r == p - 1 - stage && q == mb);
        assert(i == b) by (nonlinear_arith)
            requires
                ii == p * q + r,
                ii == i - half,
                r == p - 1 - stage,
                q == mb,
                b == half + mb * p + (p - 1 - stage),
        ;
    }
}

/// The operations of `stage` in the 1F1B schedule.
fn stage_ops(num_stages: usize, num_microbatches: usize, stage: usize) -> (r: Vec<Op>)
    requires
        stage < num_stages,
    ensures
        r@ == spec_stage_ops(num_stages as nat, num_microbatches as nat, stage as nat),
{
    let ghost nm = num_microbatches as nat;
    let ghost ops = spec_stage_ops(num_stages as nat, nm, stage as nat);
    let ahead = num_stages - stage - 1;
    let warmup = if ahead < num_microbatches { ahead } else { num_microbatches };
    let steady = num_microbatches - warmup;
    let cooldown = warmup;
    let ghost w = warmup as nat;
    assert(w == spec_warmup(num_stages as nat, nm, stage as nat));
    let mut schedule: Vec<Op> = Vec::new();
    let mut fwd_mb: usize = 0;
    let mut bwd_mb: usize = 0;
    while fwd_mb < warmup
        invariant
            fwd_mb <= warmup <= num_microbatches,
            w == warmup,
            ops == spec_stage_ops(num_stages as nat, nm, stage as nat),
            nm == num_microbatches,
            w == spec_warmup(num_stages as nat, nm, stage as nat),
            schedule@ == ops.take(fwd_mb as int),
        decreases warmup - fwd_mb,
    {
        schedule.push(Op::Forward(fwd_mb));
        fwd_mb = fwd_mb + 1;
        assert(schedule@ =~= ops.take(fwd_mb as int));
    }
    let mut k: usize = 0;
    while k < steady
        invariant
            warmup <= num_microbatches,
            steady == num_microbatches - warmup,
            k <= steady,
            fwd_mb == warmup + k,
            bwd_mb == k,
            w == warmup,
            nm == num_microbatches,
            ops == spec_stage_ops(num_stages as nat, nm, stage as nat),
            w == spec_warmup(num_stages as nat, nm, stage as nat),
            schedule@ == ops.take(warmup + 2 * k),
        decreases steady - k,
    {
        let ghost j: nat = 2 * k as nat;
        assert(j % 2 == 0 && j / 2 == k);
        assert(ops[warmup + 2 * k] == Op::Forward(fwd_mb));
        schedule.push(Op::Forward(fwd_mb));
        fwd_mb = fwd_mb + 1;
        let ghost j1: nat = j + 1;
        assert(j1 % 2 == 1 && j1 / 2 == k);
        assert(ops[warmup + 2 * k + 1] == Op::Backward(bwd_mb));
        schedule.push(Op::Backward(bwd_mb));
        bwd_mb = bwd_mb + 1;
        k = k + 1;
        assert(schedule@ =~= ops.take(warmup + 2 * k));
    }
    let mut c: usize = 0;
    while c < cooldown
        invariant
            warmup <= num_microbatches,
            steady == num_microbatches - warmup,
            cooldown == warmup,
            c <= cooldown,
            bwd_mb == steady + c,
            w == warmup,
            nm == num_microbatches,
            ops == spec_stage_ops(num_stages as nat, nm, stage as nat),
            w == spec_warmup(num_stages as nat, nm, stage as nat),
            schedule@ == ops.take(warmup + 2 * steady + c),
        decreases cooldown - c,
    {
        assert(ops[warmup + 2 * steady + c] == Op::Backward(bwd_mb));
        schedule.push(Op::Backward(bwd_mb));
        bwd_mb = bwd_mb + 1;
        c = c + 1;
        assert(schedule@ =~= ops.take(warmup + 2 * steady + c));
    }
    assert(ops.take(2 * num_microbatches) =~= ops);
    schedule
}

impl OneF1BSchedule {
    /// Each stage's operations in the 1F1B schedule, stage by stage.
    pub fn build_schedule(num_stages: usize, num_microbatches: usize) -> (r: Vec<Vec<Op>>)
        ensures
            r@.len() == num_stages,
            forall|s: int|
                0 <= s < num_stages ==> (#[trigger] r@[s])@ == spec_stage_ops(
                    num_stages as nat,
                    num_microbatches as nat,
                    s as nat,
                ),
    {
        let mut stage_schedules: Vec<Vec<Op>> = Vec::new();
        let mut stage_id: usize = 0;
        while stage_id < num_stages
            invariant
                stage_id <= num_stages,
                stage_schedules@.len() == stage_id,
                forall|s: int|
                    0 <= s < stage_id ==> (#[trigger] stage_schedules@[s])@ == spec_stage_ops(
                        num_stages as nat,
                        num_microbatches as nat,
                        s as nat,
                    ),
            decreases num_stages - stage_id,
        {
            let schedule = stage_ops(num_stages, num_microbatches, stage_id);
            stage_schedules.push(schedule);
            stage_id = stage_id + 1;
        }
        stage_schedules
    }

    /// The order in which the 1F1B schedule runs the stages' operations: round by round,
    /// and within a round stage by stage.
    pub fn execution_order(num_stages: usize, num_microbatches: usize) -> (r: Vec<(usize, Op)>)
        requires
            2 * num_microbatches * num_stages <= usize::MAX,
        ensures
            r@ == spec_onef1b_order(num_stages as nat, num_microbatches as nat),
    {
        let ghost order = spec_onef1b_order(num_stages as nat, num_microbatches as nat);
        let mut r: Vec<(usize, Op)> = Vec::new();
        if num_stages == 0 {
            assert(r@ =~= order);
            return r;
        }
        let schedules = Self::build_schedule(num_stages, num_microbatches);
        assert(2 * num_microbatches <= 2 * num_microbatches * num_stages) by (nonlinear_arith)
            requires
                num_stages >= 1,
        ;
        let rounds = 2 * num_microbatches;
        let mut t: usize = 0;
        while t < rounds
            invariant
                num_stages > 0,
                rounds == 2 * num_microbatches,
                t <= rounds,
                2 * num_microbatches * num_stages <= usize::MAX,
                order == spec_onef1b_order(num_stages as nat, num_microbatches as nat),
                schedules@.len() == num_stages,
                forall|s: int|
                    0 <= s < num_stages ==> (#[trigger] schedules@[s])@ == spec_stage_ops(
                        num_stages as nat,
                        num_microbatches as nat,
                        s as nat,
                    ),
                r@.len() == t * num_stages,
                forall|k: int| 0 <= k < r@.len() ==> r@[k] == #[trigger] order[k],
            decreases rounds - t,
        {
            let mut s: usize = 0;
            while s < num_stages
                invariant
                    num_stages > 0,
                    rounds == 2 * num_microbatches,
                    t < rounds,
                    s <= num_stages,
                    order == spec_onef1b_order(num_stages as nat, num_microbatches as nat),
                    schedules@.len() == num_stages,
                    forall|s2: int|
                        0 <= s2 < num_stages ==> (#[trigger] schedules@[s2])@ == spec_stage_ops(
                            num_stages as nat,
                            num_microbatches as nat,
                            s2 as nat,
                        ),
                    r@.len() == t * num_stages + s,
                    forall|k: int| 0 <= k < r@.len() ==> r@[k] == #[trigger] order[k],
                decreases num_stages - s,
            {
                let op = schedules[s][t];
                let ghost k = t * num_stages + s;
                proof {
                    vstd::arithmetic::div_mod::lemma_fundamental_div_mod_converse(
                        k,
                        num_stages as int,
                        t as int,
                        s as int,
                    );
                    assert(t + 1 <= 2 * num_microbatches);
                    vstd::arithmetic::mul::lemma_mul_inequality(
                        (t + 1) as int,
                        (2 * num_microbatches) as int,
                        num_stages as int,
                    );
                    assert((t + 1) * num_stages == t * num_stages + num_stages) by (nonlinear_arith);
                }
                r.push((s, op));
                s = s + 1;
            }
            assert((t + 1) * num_stages == t * num_stages + num_stages) by (nonlinear_arith);
            t = t + 1;
        }
        assert(r@ =~= order);
        r
    }
}

// ---------------------------------------------------------------------------------------
// GPipe
// ---------------------------------------------------------------------------------------

/// The order in which the GPipe schedule runs: first, microbatch by microbatch, the forward
/// pass through stages `0, 1, ..`; then, microbatch by microbatch, the backward pass through
/// the stages from the last to the first.
pub open spec fn spec_gpipe_order(num_stages: nat, num_microbatches: nat) -> Seq<(usize, Op)> {
    let half = num_microbatches * num_stages;
    Seq::new(
        2 * half,
        |k: int|
            if k < half {
                ((k % num_stages as int) as usize, Op::Forward((k / num_stages as int) as usize))
            } else {
                (
                    (num_stages - 1 - (k - half) % num_stages as int) as usize,
                    Op::Backward(((k - half) / num_stages as int) as usize),
                )
            },
    )
}

/// In the GPipe order every forward pass comes before every backward pass; a stage's
/// forward pass of a microbatch comes right after the previous stage's, and its backward
/// pass right after the next stage's.
pub proof fn lemma_gpipe_order(num_stages: usize, num_microbatches: usize, i: int, j: int)
    requires
        num_stages > 0,
        0 <= i < j < spec_gpipe_order(num_stages as nat, num_microbatches as nat).len(),
    ensures
        ({
            let order = spec_gpipe_order(num_stages as nat, num_microbatches as nat);
            &&& order[j].1 is Forward ==> order[i].1 is Forward
            &&& (order[j].1 is Forward && order[j].0 > 0) ==> order[j - 1] == (
                (order[j].0 - 1) as usize,
                order[j].1,
            )
            &&& (order[j].1 is Backward && order[j].0 + 1 < num_stages) ==> order[j - 1] == (
                (order[j].0 + 1) as usize,
                order[j].1,
            )
        }),
{
    let p = num_stages as int;
    let half = num_microbatches * num_stages;
    let order = spec_gpipe_order(num_stages as nat, num_microbatches as nat);
    if order[j].1 is Forward {
        assert(j < half);
        if j % p > 0 {
            vstd::arithmetic::div_mod::lemma_fundamental_div_mod(j, p);
            vstd::arithmetic::div_mod::lemma_mod_pos_bound(j, p);
            assert(j - 1 == (j / p) * p + (j % p - 1)) by (nonlinear_arith)
                requires
                    j == p * (j / p) + j % p,
            ;
            vstd::arithmetic::div_mod::lemma_fundamental_div_mod_converse(j - 1, p, j / p, j % p - 1);
        }
    } else {
        assert(j >= half);
        let jj = j - half;
        vstd::arithmetic::div_mod::lemma_mod_pos_bound(jj, p);
        if num_stages - 1 - jj % p + 1 < num_stages {
            assert(jj % p > 0);
            vstd::arithmetic::div_mod::lemma_fundamental_div_mod(jj, p);
            assert(jj - 1 == (jj / p) * p + (jj % p - 1)) by (nonlinear_arith)
                requires
                    jj == p * (jj / p) + jj % p,
            ;
            vstd::arithmetic::div_mod::lemma_fundamental_div_mod_converse(jj - 1, p, jj / p, jj % p - 1);
            assert(j - 1 >= half);
        }
    }
}

impl GpipeSchedule {
    /// The order in which the GPipe schedule runs the stages' operations.
    pub fn execution_order(num_stages: usize, num_microbatches: usize) -> (r: Vec<(usize, Op)>)
        requires
            2 * num_microbatches * num_stages <= usize::MAX,
        ensures
            r@ == spec_gpipe_order(num_stages as nat, num_microbatches as nat),
    {
        let ghost order = spec_gpipe_order(num_stages as nat, num_microbatches as nat);
        let ghost half = num_microbatches * num_stages;
        let mut r: Vec<(usize, Op)> = Vec::new();
        if num_stages == 0 {
            assert(r@ =~= order);
            return r;
        }
        proof {
            assert(num_microbatches * num_stages <= 2 * num_microbatches * num_stages) by (nonlinear_arith);
        }
        let mut mb: usize = 0;
        while mb < num_microbatches
            invariant
                num_stages > 0,
                mb <= num_microbatches,
                half == num_microbatches * num_stages,
                2 * num_microbatches * num_stages <= usize::MAX,
                order == spec_gpipe_order(num_stages as nat, num_microbatches as nat),
                r@.len() == mb * num_stages,
                forall|k: int| 0 <= k < r@.len() ==> r@[k] == #[trigger] order[k],
            decreases num_microbatches - mb,
        {
            let mut s: usize = 0;
            while s < num_stages
                invariant
                    num_stages > 0,
                    mb < num_microbatches,
                    s <= num_stages,
                    half == num_microbatches * num_stages,
                    order == spec_gpipe_order(num_stages as nat, num_microbatches as nat),
                    r@.len() == mb * num_stages + s,
                    forall|k: int| 0 <= k < r@.len() ==> r@[k] == #[trigger] order[k],
                decreases num_stages - s,
            {
                let ghost k = mb * num_stages + s;
                proof {
                    vstd::arithmetic::div_mod::lemma_fundamental_div_mod_converse(
                        k,
                        num_stages as int,
                        mb as int,
                        s as int,
                    );
                    vstd::arithmetic::mul::lemma_mul_inequality(
                        (mb + 1) as int,
                        num_microbatches as int,
                        num_stages as int,
                    );
                    assert((mb + 1) * num_stages == mb * num_stages + num_stages) by (nonlinear_arith);
                }
                r.push((s, Op::Forward(mb)));
                s = s + 1;
            }
            assert((mb + 1) * num_stages == mb * num_stages + num_stages) by (nonlinear_arith);
            mb = mb + 1;
        }
        let mut mb: usize = 0;
        while mb < num_microbatches
            invariant
                num_stages > 0,
                mb <= num_microbatches,
                half == num_microbatches * num_stages,
                order == spec_gpipe_order(num_stages as nat, num_microbatches as nat),
                r@.len() == half + mb * num_stages,
                forall|k: int| 0 <= k < r@.len() ==> r@[k] == #[trigger] order[k],
            decreases num_microbatches - mb,
        {
            let mut n: usize = 0;
            while n < num_stages
                invariant
                    num_stages > 0,
                    mb < num_microbatches,
                    n <= num_stages,
                    half == num_microbatches * num_stages,
                    order == spec_gpipe_order(num_stages as nat, num_microbatches as nat),
                    r@.len() == half + mb * num_stages + n,
                    forall|k: int| 0 <= k < r@.len() ==> r@[k] == #[trigger] order[k],
                decreases num_stages - n,
            {
                let ghost k = half + mb * num_stages + n;
                proof {
                    vstd::arithmetic::div_mod::lemma_fundamental_div_mod_converse(
                        k - half,
                        num_stages as int,
                        mb as int,
                        n as int,
                    );
                    vstd::arithmetic::mul::lemma_mul_inequality(
                        (mb + 1) as int,
                        num_microbatches as int,
                        num_stages as int,
                    );
                    assert((mb + 1) * num_stages == mb * num_stages + num_stages) by (nonlinear_arith);
                }
                let stage = num_stages - 1 - n;
                r.push((stage, Op::Backward(mb)));
                n = n + 1;
            }
            assert((mb + 1) * num_stages == mb * num_stages + num_stages) by (nonlinear_arith);
            mb = mb + 1;
        }
        assert(r@ =~= order);
        r
    }
}

impl ScheduleKind {
    /// The order in which this schedule runs the stages' operations.
    pub fn execution_order(&self, num_stages: usize, num_microbatches: usize) -> (r: Vec<(usize, Op)>)
        requires
            2 * num_microbatches * num_stages <= usize::MAX,
        ensures
            r@ == match self {
                ScheduleKind::Gpipe(_) => spec_gpipe_order(num_stages as nat, num_microbatches as nat),
                ScheduleKind::OneF1B(_) => spec_onef1b_order(num_stages as nat, num_microbatches as nat),
            },
    {
        match self {
            ScheduleKind::Gpipe(_) => GpipeSchedule::execution_order(num_stages, num_microbatches),
            ScheduleKind::OneF1B(_) => OneF1BSchedule::execution_order(num_stages, num_microbatches),
        }
    }
}

} // verus!
