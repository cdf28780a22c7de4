use vstd::prelude::*;

verus! {

/// An 8-bit floating-point encoding: 4 exponent and 3 mantissa bits, or 5 and 2.
#[derive(Debug, Clone, Copy, PartialEq, Eq, Structural)]
pub enum Fp8Format {
    E4M3,
    E5M2,
}

/// The precision in which master weights are kept.
#[derive(Debug, Clone, Copy, PartialEq, Eq, Structural)]
pub enum MasterFormat {
    Fp32,
    Bf16,
}

/// How FP8 scale factors are chosen.
#[derive(Debug, Clone, Copy, PartialEq, Eq, Structural)]
pub enum ScalingStrategy {
    /// From the largest magnitude seen over the last `history_length` steps.
    Delayed { history_length: usize },
    /// From the current tensor.
    Dynamic,
}

/// Formats and scaling used for FP8 mixed-precision training.
#[derive(Debug, Clone, Copy, PartialEq, Eq, Structural)]
pub struct MixedPrecisionConfig {
    pub forward_format: Fp8Format,
    pub backward_format: Fp8Format,
    pub master_format: MasterFormat,
    pub scaling_strategy: ScalingStrategy,
}

/// Length of the amax history of the default delayed scaling.
pub const DEFAULT_HISTORY_LENGTH: usize = 1024;

/// E4M3 forward, E5M2 backward, FP32 master weights, delayed scaling over 1024 steps.
pub open spec fn spec_default_mixed_precision() -> MixedPrecisionConfig {
    MixedPrecisionConfig {
        forward_format: Fp8Format::E4M3,
        backward_format: Fp8Format::E5M2,
        master_format: MasterFormat::Fp32,
        scaling_strategy: ScalingStrategy::Delayed { history_length: DEFAULT_HISTORY_LENGTH },
    }
}

impl Default for MixedPrecisionConfig {
    /// E4M3 forward, E5M2 backward, FP32 master weights, delayed scaling over 1024 steps.
    fn default() -> (r: Self)
        ensures
            r == spec_default_mixed_precision(),
    {
        Self {
            forward_format: Fp8Format::E4M3,
            backward_format: Fp8Format::E5M2,
            master_format: MasterFormat::Fp32,
            scaling_strategy: ScalingStrategy::Delayed { history_length: DEFAULT_HISTORY_LENGTH },
        }
    }
}

} // verus!
