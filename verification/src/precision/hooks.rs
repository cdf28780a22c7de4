use vstd::prelude::*;

verus! {

/// Casts gradients to E5M2 on their way through the backward pass. The cast is tensor
/// arithmetic, carried out on the caller's tensor backend.
pub struct GradientHook;

/// FP8 casts for autodiff graphs: gradients to E5M2, weights to E4M3. The casts are tensor
/// arithmetic, carried out on the caller's tensor backend.
pub struct AutodiffExt;

} // verus!
