use vstd::prelude::*;

verus! {

/// Whether the loss scale adapts to overflows.
#[derive(Debug, Clone, Copy, PartialEq, Eq, Structural)]
pub enum LossScaleMode {
    Dynamic,
    Static,
}

/// What happens to the loss scale after a step.
#[derive(Debug, Clone, Copy, PartialEq, Eq, Structural)]
pub enum ScaleAdjustment {
    /// The scale stays as it is.
    Keep,
    /// The scale is halved, and raised to 1 if it falls below 1.
    Halve,
    /// The scale is doubled.
    Double,
}

/// The loss scaler's decision for one step: in static mode nothing changes; an overflow
/// halves the scale and restarts the growth count; otherwise the count grows, and when it
/// reaches the growth interval the scale doubles and the count restarts.
pub open spec fn spec_scale_transition(
    mode: LossScaleMode,
    growth_interval: usize,
    growth_counter: usize,
    overflow: bool,
) -> (ScaleAdjustment, usize) {
    if mode == LossScaleMode::Static {
        (ScaleAdjustment::Keep, growth_counter)
    } else if overflow {
        (ScaleAdjustment::Halve, 0)
    } else if growth_counter + 1 >= growth_interval {
        (ScaleAdjustment::Double, 0)
    } else {
        (ScaleAdjustment::Keep, (growth_counter + 1) as usize)
    }
}

/// Decides how a step changes the loss scale and the growth counter.
pub fn scale_transition(mode: LossScaleMode, growth_interval: usize, growth_counter: usize, overflow: bool) -> (r: (
    ScaleAdjustment,
    usize,
))
    requires
        mode == LossScaleMode::Dynamic && !overflow ==> growth_counter < usize::MAX,
    ensures
        r == spec_scale_transition(mode, growth_interval, growth_counter, overflow),
{
    if mode == LossScaleMode::Static {
        return (ScaleAdjustment::Keep, growth_counter);
    }
    if overflow {
        (ScaleAdjustment::Halve, 0)
    } else {
        let counter = growth_counter + 1;
        if counter >= growth_interval {
            (ScaleAdjustment::Double, 0)
        } else {
            (ScaleAdjustment::Keep, counter)
        }
    }
}

/// In dynamic mode the growth counter stays below the growth interval (or at 0), so it
/// never overflows; in static mode the scale and counter never change.
pub proof fn lemma_scale_transition_bounded(
    mode: LossScaleMode,
    growth_interval: usize,
    growth_counter: usize,
    overflow: bool,
)
    requires
        growth_counter < growth_interval || growth_counter == 0,
    ensures
        ({
            let (adj, next) = spec_scale_transition(mode, growth_interval, growth_counter, overflow);
            &&& next < growth_interval || next == 0
            &&& mode == LossScaleMode::Static ==> adj == ScaleAdjustment::Keep && next == growth_counter
            &&& mode == LossScaleMode::Dynamic && overflow ==> adj == ScaleAdjustment::Halve && next == 0
            &&& mode == LossScaleMode::Dynamic && !overflow ==> adj != ScaleAdjustment::Halve
        }),
{
}

/// Starting from a fresh counter, `k` overflow-free dynamic steps with `k` below the growth
/// interval leave the scale alone and count to `k`; the step that reaches the interval doubles it.
pub proof fn lemma_growth_after_interval(growth_interval: usize, k: usize)
    requires
        0 < k < growth_interval,
    ensures
        spec_scale_transition(LossScaleMode::Dynamic, growth_interval, (k - 1) as usize, false) == (
            ScaleAdjustment::Keep,
            k,
        ),
        spec_scale_transition(LossScaleMode::Dynamic, growth_interval, (growth_interval - 1) as usize, false) == (
            ScaleAdjustment::Double,
            0usize,
        ),
{
}

/// The growth counter after the loss scaler, starting from `counter`, has seen one step for
/// each entry of `overflows` (true where the step overflowed).
pub open spec fn spec_counter_after(
    mode: LossScaleMode,
    growth_interval: usize,
    counter: usize,
    overflows: Seq<bool>,
) -> usize
    decreases overflows.len(),
{
    if overflows.len() == 0 {
        counter
    } else {
        spec_scale_transition(
            mode,
            growth_interval,
            spec_counter_after(mode, growth_interval, counter, overflows.drop_last()),
            overflows.last(),
        ).1
    }
}

/// The scale adjustment of step `k` of such a run.
pub open spec fn spec_adjustment_at(
    mode: LossScaleMode,
    growth_interval: usize,
    counter: usize,
    overflows: Seq<bool>,
    k: int,
) -> ScaleAdjustment {
    spec_scale_transition(
        mode,
        growth_interval,
        spec_counter_after(mode, growth_interval, counter, overflows.take(k)),
        overflows[k],
    ).0
}

proof fn lemma_counter_after_bounded(mode: LossScaleMode, growth_interval: usize, counter: usize, overflows: Seq<bool>)
    requires
        mode == LossScaleMode::Dynamic ==> counter < growth_interval,
    ensures
        mode == LossScaleMode::Static ==> spec_counter_after(mode, growth_interval, counter, overflows) == counter,
        mode == LossScaleMode::Dynamic ==> spec_counter_after(mode, growth_interval, counter, overflows)
            < growth_interval,
    decreases overflows.len(),
{
    if overflows.len() > 0 {
        lemma_counter_after_bounded(mode, growth_interval, counter, overflows.drop_last());
    }
}

/// Over any run of steps: a static scaler never changes its scale or its growth counter. A
/// dynamic scaler whose counter starts below the growth interval keeps it below the interval
/// after every step (so counting up never overflows); each step halves the scale exactly when
/// it overflowed, and doubles it exactly when it did not and the counter, raised by one,
/// reaches the interval.
pub proof fn lemma_scaler_run(mode: LossScaleMode, growth_interval: usize, counter: usize, overflows: Seq<bool>)
    requires
        mode == LossScaleMode::Dynamic ==> counter < growth_interval,
    ensures
        mode == LossScaleMode::Static ==> spec_counter_after(mode, growth_interval, counter, overflows) == counter
            && forall|k: int|
            0 <= k < overflows.len() ==> #[trigger] spec_adjustment_at(mode, growth_interval, counter, overflows, k)
                == ScaleAdjustment::Keep,
        mode == LossScaleMode::Dynamic ==> forall|k: int|
            0 <= k <= overflows.len() ==> #[trigger] spec_counter_after(
                mode,
                growth_interval,
                counter,
                overflows.take(k),
            ) < growth_interval,
        mode == LossScaleMode::Dynamic ==> forall|k: int|
            0 <= k < overflows.len() ==> {
                let before = spec_counter_after(mode, growth_interval, counter, overflows.take(k));
                let adj = #[trigger] spec_adjustment_at(mode, growth_interval, counter, overflows, k);
                &&& (adj == ScaleAdjustment::Halve <==> overflows[k])
                &&& (adj == ScaleAdjustment::Double <==> !overflows[k] && before + 1 >= growth_interval)
            },
{
    lemma_counter_after_bounded(mode, growth_interval, counter, overflows);
    assert forall|k: int| 0 <= k <= overflows.len() implies #[trigger] spec_counter_after(
        mode,
        growth_interval,
        counter,
        overflows.take(k),
    ) < growth_interval || mode == LossScaleMode::Static by {
        lemma_counter_after_bounded(mode, growth_interval, counter, overflows.take(k));
    }
    if mode == LossScaleMode::Static {
        assert forall|k: int| 0 <= k < overflows.len() implies #[trigger] spec_adjustment_at(
            mode,
            growth_interval,
            counter,
            overflows,
            k,
        ) == ScaleAdjustment::Keep by {}
    }
}

} // verus!
