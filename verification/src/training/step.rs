use vstd::prelude::*;
use crate::training::config::TrainingConfig;

verus! {

/// Why a training step failed.
#[derive(Debug, PartialEq, Eq)]
pub enum StepError {
    /// The gradients held a NaN or an infinity; the step was skipped.
    Overflow,
    /// Gradient shapes did not match; the text says where.
    ShapeMismatch(String),
    /// Anything else; the text says what.
    Internal(String),
}

/// Why a training loop stopped.
#[derive(Debug, PartialEq, Eq)]
pub enum TrainingError {
    /// The step numbered `step` failed.
    StepError { step: usize, source: StepError },
    /// The data loader yielded nothing.
    EmptyDataloader,
}

/// What a training step does once the gradients of a micro-batch have been accumulated.
#[derive(Debug, Clone, Copy, PartialEq, Eq, Structural)]
pub enum StepPlan {
    /// The gradients overflowed: lower the loss scale, reset the accumulator, fail with
    /// `StepError::Overflow`.
    Overflow,
    /// Enough micro-batches are in: clip the gradients if `clip`, scale the learning rate
    /// down linearly if `warmup`, raise the loss-scale growth count, advance the global step
    /// to `step`, and log if `log`.
    Apply { step: usize, clip: bool, warmup: bool, log: bool },
    /// Keep accumulating; the global step stays.
    Accumulate,
}

/// The single-precision number with bit pattern `bits` is greater than zero: not NaN, sign
/// bit clear, and not zero.
pub open spec fn spec_f32_gt_zero(bits: u32) -> bool {
    let is_nan = (bits >> 23u32) & 0xff == 0xff && bits & 0x007f_ffff != 0;
    &&& !is_nan
    &&& bits >> 31u32 == 0
    &&& bits != 0
}

/// The plan of a step: an overflow fails it; otherwise, once `accumulated_steps` reaches the
/// configured accumulation steps, the global step advances by one, gradients are clipped when
/// the clipping threshold is positive, warm-up applies while the global step before the
/// update is below a positive warm-up length, and the new step is logged when the logging
/// interval is positive and divides it (an interval of zero never logs).
pub open spec fn spec_plan_step(
    overflow: bool,
    accumulated_steps: usize,
    config: TrainingConfig,
    global_step: usize,
) -> StepPlan {
    if overflow {
        StepPlan::Overflow
    } else if accumulated_steps >= config.accumulation_steps {
        let step = (global_step + 1) as usize;
        StepPlan::Apply {
            step,
            clip: spec_f32_gt_zero(config.clip_grad_norm_bits),
            warmup: global_step < config.warmup_steps && config.warmup_steps > 0,
            log: config.log_interval > 0 && step % config.log_interval == 0,
        }
    } else {
        StepPlan::Accumulate
    }
}

fn f32_gt_zero(bits: u32) -> (r: bool)
    ensures
        r == spec_f32_gt_zero(bits),
{
    let is_nan = (bits >> 23u32) & 0xff == 0xff && bits & 0x007f_ffff != 0;
    !is_nan && bits >> 31u32 == 0 && bits != 0
}

/// Decides what a training step does after accumulating a micro-batch's gradients.
pub fn plan_step(overflow: bool, accumulated_steps: usize, config: &TrainingConfig, global_step: usize) -> (r:
    StepPlan)
    requires
        !overflow && accumulated_steps >= config.accumulation_steps ==> global_step < usize::MAX,
    ensures
        r == spec_plan_step(overflow, accumulated_steps, *config, global_step),
{
    if overflow {
        return StepPlan::Overflow;
    }
    if accumulated_steps >= config.accumulation_steps {
        let step = global_step + 1;
        StepPlan::Apply {
            step,
            clip: f32_gt_zero(config.clip_grad_norm_bits),
            warmup: global_step < config.warmup_steps && config.warmup_steps > 0,
            log: config.log_interval > 0 && step % config.log_interval == 0,
        }
    } else {
        StepPlan::Accumulate
    }
}

/// Over a run of steps, the global step advances exactly on the steps that apply an update:
/// an overflow or an accumulation leaves it alone, an update raises it by one.
pub proof fn lemma_step_advances_only_on_update(
    overflow: bool,
    accumulated_steps: usize,
    config: TrainingConfig,
    global_step: usize,
)
    requires
        global_step < usize::MAX,
    ensures
        spec_plan_step(overflow, accumulated_steps, config, global_step) matches StepPlan::Apply { step, .. }
            ==> step == global_step + 1 && !overflow && accumulated_steps >= config.accumulation_steps,
        overflow ==> spec_plan_step(overflow, accumulated_steps, config, global_step) == StepPlan::Overflow,
        !overflow && accumulated_steps < config.accumulation_steps ==> spec_plan_step(
            overflow,
            accumulated_steps,
            config,
            global_step,
        ) == StepPlan::Accumulate,
{
}

/// Warm-up is counted in updates of the global step, whatever the number of accumulation
/// steps: an applied update is a warm-up update exactly when the global step before it is
/// below a positive warm-up length. Two configurations that differ only in their
/// accumulation steps agree on it.
pub proof fn lemma_warmup_counts_updates(
    accumulated_steps: usize,
    config: TrainingConfig,
    other_accumulation_steps: usize,
    global_step: usize,
)
    requires
        accumulated_steps >= config.accumulation_steps,
        accumulated_steps >= other_accumulation_steps,
    ensures
        spec_plan_step(false, accumulated_steps, config, global_step) matches StepPlan::Apply { warmup, .. }
            && warmup == (global_step < config.warmup_steps && config.warmup_steps > 0),
        spec_plan_step(
            false,
            accumulated_steps,
            TrainingConfig { accumulation_steps: other_accumulation_steps, ..config },
            global_step,
        ) matches StepPlan::Apply { warmup, .. } && warmup == (global_step < config.warmup_steps
            && config.warmup_steps > 0),
{
}

/// The number of steps a training loop took over `batches` batches, one step per batch; a
/// data loader that yielded no batch is an error.
pub fn training_loop_steps(batches: usize) -> (r: Result<usize, TrainingError>)
    ensures
        batches == 0 ==> r == Err::<usize, TrainingError>(TrainingError::EmptyDataloader),
        batches > 0 ==> r == Ok::<usize, TrainingError>(batches),
{
    if batches == 0 {
        Err(TrainingError::EmptyDataloader)
    } else {
        Ok(batches)
    }
}

} // verus!
