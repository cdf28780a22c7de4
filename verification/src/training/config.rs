use vstd::prelude::*;
use crate::precision::config::{MixedPrecisionConfig, spec_default_mixed_precision};

verus! {

/// Schedule strategy for pipeline-parallel execution.
#[derive(Debug, Clone, Copy, PartialEq, Eq, Structural)]
pub enum PipelineScheduleConfig {
    /// Every microbatch's forward pass before any backward pass.
    GPipe,
    /// One forward, one backward, over the given number of stages.
    OneF1B { num_stages: usize },
}

/// Where the torus dimensions come from.
#[derive(Debug, Clone, Copy, PartialEq, Eq)]
pub enum TopologyConfig {
    /// Width, height and depth given by hand.
    Manual { dims: [usize; 3] },
    /// Discovered from the hardware.
    Auto,
}

/// Hyper-parameters and distributed settings of a training run. The learning rate is held
/// as the bit pattern of its IEEE-754 double-precision number and the gradient clipping
/// threshold as that of its single-precision number.
#[derive(Debug, Clone, Copy, PartialEq, Eq)]
pub struct TrainingConfig {
    pub batch_size: usize,
    pub micro_batch_size: usize,
    pub accumulation_steps: usize,
    pub learning_rate_bits: u64,
    pub epochs: usize,
    pub warmup_steps: usize,
    pub mixed_precision: MixedPrecisionConfig,
    pub pipeline_schedule: PipelineScheduleConfig,
    pub topology_config: TopologyConfig,
    pub checkpoint_interval: usize,
    pub log_interval: usize,
    pub clip_grad_norm_bits: u32,
}

/// The bit pattern of the double-precision number 1e-4, the default learning rate.
pub const DEFAULT_LEARNING_RATE_BITS: u64 = 0x3f1a_36e2_eb1c_432d;

/// Why a [`TrainingConfig`] is refused.
#[derive(Debug, Clone, Copy, PartialEq, Eq, Structural)]
pub enum ValidationError {
    AccumulationStepsZero(usize),
    BatchSizeTooSmall(usize, usize),
    BatchSizeNotDivisible(usize, usize),
    EpochsZero(usize),
    /// Carries the bit pattern of the refused rate.
    LearningRateNonPositive(u64),
    MicroBatchSizeZero(usize),
}

/// The double-precision number with bit pattern `bits` is NaN.
pub open spec fn spec_f64_is_nan(bits: u64) -> bool {
    &&& (bits >> 52u64) & 0x7ff == 0x7ff
    &&& bits & 0x000f_ffff_ffff_ffff != 0
}

/// The double-precision number with bit pattern `bits` is greater than zero: it is not
/// NaN, its sign bit is clear, and it is not zero.
pub open spec fn spec_f64_positive(bits: u64) -> bool {
    &&& !spec_f64_is_nan(bits)
    &&& bits >> 63u64 == 0
    &&& bits != 0
}

/// The first check that the configuration fails, in the order micro-batch size,
/// accumulation steps, batch size against micro-batch size, divisibility, epochs, and a
/// learning rate greater than zero (NaN is refused); `Ok` when it passes them all.
pub open spec fn spec_validate(c: TrainingConfig) -> Result<(), ValidationError> {
    if c.micro_batch_size == 0 {
        Err(ValidationError::MicroBatchSizeZero(c.micro_batch_size))
    } else if c.accumulation_steps == 0 {
        Err(ValidationError::AccumulationStepsZero(c.accumulation_steps))
    } else if c.batch_size < c.micro_batch_size {
        Err(ValidationError::BatchSizeTooSmall(c.batch_size, c.micro_batch_size))
    } else if c.batch_size % c.micro_batch_size != 0 {
        Err(ValidationError::BatchSizeNotDivisible(c.batch_size, c.micro_batch_size))
    } else if c.epochs == 0 {
        Err(ValidationError::EpochsZero(c.epochs))
    } else if !spec_f64_positive(c.learning_rate_bits) {
        Err(ValidationError::LearningRateNonPositive(c.learning_rate_bits))
    } else {
        Ok(())
    }
}

fn f64_positive(bits: u64) -> (r: bool)
    ensures
        r == spec_f64_positive(bits),
{
    let is_nan = (bits >> 52u64) & 0x7ff == 0x7ff && bits & 0x000f_ffff_ffff_ffff != 0;
    !is_nan && bits >> 63u64 == 0 && bits != 0
}

/// Batch 32 in micro-batches of 16 over 2 accumulation steps, learning rate 1e-4, 10
/// epochs, no warm-up, the default mixed precision, GPipe, discovered topology, checkpoints
/// every 1000 steps, logs every 10, no gradient clipping.
pub open spec fn spec_default_training_config() -> TrainingConfig {
    TrainingConfig {
        batch_size: 32,
        micro_batch_size: 16,
        accumulation_steps: 2,
        learning_rate_bits: DEFAULT_LEARNING_RATE_BITS,
        epochs: 10,
        warmup_steps: 0,
        mixed_precision: spec_default_mixed_precision(),
        pipeline_schedule: PipelineScheduleConfig::GPipe,
        topology_config: TopologyConfig::Auto,
        checkpoint_interval: 1000,
        log_interval: 10,
        clip_grad_norm_bits: 0,
    }
}

impl Default for TrainingConfig {
    fn default() -> (r: Self)
        ensures
            r == spec_default_training_config(),
    {
        Self {
            batch_size: 32,
            micro_batch_size: 16,
            accumulation_steps: 2,
            learning_rate_bits: DEFAULT_LEARNING_RATE_BITS,
            epochs: 10,
            warmup_steps: 0,
            mixed_precision: MixedPrecisionConfig::default(),
            pipeline_schedule: PipelineScheduleConfig::GPipe,
            topology_config: TopologyConfig::Auto,
            checkpoint_interval: 1000,
            log_interval: 10,
            clip_grad_norm_bits: 0,
        }
    }
}

impl TrainingConfig {
    /// Checks the configuration; see [`spec_validate`] for the order of the checks.
    pub fn validate(&self) -> (r: Result<(), ValidationError>)
        ensures
            r == spec_validate(*self),
    {
        if self.micro_batch_size == 0 {
            return Err(ValidationError::MicroBatchSizeZero(self.micro_batch_size));
        }
        if self.accumulation_steps == 0 {
            return Err(ValidationError::AccumulationStepsZero(self.accumulation_steps));
        }
        if self.batch_size < self.micro_batch_size {
            return Err(ValidationError::BatchSizeTooSmall(self.batch_size, self.micro_batch_size));
        }
        if self.batch_size % self.micro_batch_size != 0 {
            return Err(ValidationError::BatchSizeNotDivisible(self.batch_size, self.micro_batch_size));
        }
        if self.epochs == 0 {
            return Err(ValidationError::EpochsZero(self.epochs));
        }
        if !f64_positive(self.learning_rate_bits) {
            return Err(ValidationError::LearningRateNonPositive(self.learning_rate_bits));
        }
        Ok(())
    }

    /// The number of samples one optimizer update sees: micro-batch size times
    /// accumulation steps.
    pub fn effective_batch_size(&self) -> (r: usize)
        requires
            self.micro_batch_size * self.accumulation_steps <= usize::MAX,
        ensures
            r == self.micro_batch_size * self.accumulation_steps,
    {
        self.micro_batch_size * self.accumulation_steps
    }

    /// The number of optimizer updates per epoch: the batch size divided by the effective
    /// batch size, rounded up; 0 when the effective batch size is 0.
    pub fn steps_per_epoch(&self) -> (r: usize)
        requires
            self.micro_batch_size * self.accumulation_steps <= usize::MAX,
        ensures
            ({
                let e = self.micro_batch_size * self.accumulation_steps;
                r == if e == 0 {
                    0
                } else {
                    (self.batch_size + e - 1) / e
                }
            }),
    {
        let effective = self.effective_batch_size();
        if effective == 0 {
            return 0;
        }
        let q = self.batch_size / effective;
        let rem = self.batch_size % effective;
        proof {
            let b = self.batch_size as int;
            let e = effective as int;
            vstd::arithmetic::div_mod::lemma_fundamental_div_mod(b, e);
            vstd::arithmetic::div_mod::lemma_mod_pos_bound(b, e);
            assert(q * e <= b) by (nonlinear_arith)
                requires
                    b == e * q + rem,
                    rem >= 0,
            ;
            assert(q <= q * e) by (nonlinear_arith)
                requires
                    e >= 1,
                    q >= 0,
            ;
            if rem != 0 {
                assert(b + e - 1 == (q + 1) * e + (rem - 1)) by (nonlinear_arith)
                    requires
                        b == e * q + rem,
                ;
                vstd::arithmetic::div_mod::lemma_fundamental_div_mod_converse(b + e - 1, e, q + 1, rem - 1);
            } else {
                assert(b + e - 1 == q * e + (e - 1)) by (nonlinear_arith)
                    requires
                        b == e * q + rem,
                        rem == 0,
                ;
                vstd::arithmetic::div_mod::lemma_fundamental_div_mod_converse(b + e - 1, e, q as int, e - 1);
            }
        }
        let r = if rem != 0 { q + 1 } else { q };
        r
    }
}

} // verus!
