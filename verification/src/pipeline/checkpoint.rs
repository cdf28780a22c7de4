use vstd::prelude::*;

verus! {

/// How much of a stage's forward pass is kept for recomputation in the backward pass.
#[derive(Debug, Clone, Copy, PartialEq, Eq, Structural)]
pub enum CheckpointStrategy {
    /// The stage input is kept and the whole forward pass recomputed.
    Full,
    /// The stage input is kept and the layers are run in two segments.
    Selective,
    /// Nothing is kept.
    Disabled,
}

/// Saving inputs and recomputing forward passes. The passes themselves run the stage's
/// layers, which this library does not hold.
pub struct ActivationCheckpoint;

/// What a checkpointed forward pass of a stage does besides running its layers in order.
#[derive(Debug, Clone, Copy, PartialEq, Eq, Structural)]
pub enum CheckpointAction {
    /// Run the layers; keep nothing.
    Plain,
    /// Keep the input, then run the layers.
    CacheInput,
    /// Run the layers before the given index as one segment and the rest as another, then
    /// keep the input.
    SplitAndCacheInput(usize),
}

/// The action of a strategy on a stage of `num_layers` layers: `Disabled` keeps nothing, `Full`
/// keeps the input, and `Selective` splits the layers at the middle when there are at least
/// two of them and otherwise acts as `Full`.
pub open spec fn spec_checkpoint_action(strategy: CheckpointStrategy, num_layers: nat) -> CheckpointAction {
    match strategy {
        CheckpointStrategy::Disabled => CheckpointAction::Plain,
        CheckpointStrategy::Full => CheckpointAction::CacheInput,
        CheckpointStrategy::Selective => if num_layers > 1 {
            CheckpointAction::SplitAndCacheInput((num_layers / 2) as usize)
        } else {
            CheckpointAction::CacheInput
        },
    }
}

impl CheckpointStrategy {
    /// What a checkpointed forward pass under this strategy does on a stage of
    /// `num_layers` layers.
    pub fn action(&self, num_layers: usize) -> (r: CheckpointAction)
        ensures
            r == spec_checkpoint_action(*self, num_layers as nat),
            r matches CheckpointAction::SplitAndCacheInput(k) ==> 0 < k < num_layers,
    {
        match self {
            CheckpointStrategy::Disabled => CheckpointAction::Plain,
            CheckpointStrategy::Full => CheckpointAction::CacheInput,
            CheckpointStrategy::Selective => {
                if num_layers > 1 {
                    CheckpointAction::SplitAndCacheInput(num_layers / 2)
                } else {
                    CheckpointAction::CacheInput
                }
            },
        }
    }
}

} // verus!
