use vstd::prelude::*;

verus! {

/// The FP8 quantizer. Quantization itself is floating-point arithmetic and is carried out
/// outside this library.
pub struct Fp8Quantizer;

} // verus!
