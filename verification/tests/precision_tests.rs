use meshtorus::codec::{push_u32_le, push_u64_le, read_u32_le, read_u64_le};
use meshtorus::precision::blocks::{block_ranges, dequant_block};
use meshtorus::precision::loss_scale::{scale_transition, LossScaleMode, ScaleAdjustment};
use meshtorus::precision::scaling::DelayedScaling;
use meshtorus::precision::shape::fp8_tensor_dims;

#[test]
fn codec_matches_std_little_endian() {
    let mut buf = vec![9u8];
    push_u64_le(&mut buf, 0x0102_0304_0506_0708);
    push_u32_le(&mut buf, 0xdead_beef);
    let mut expected = vec![9u8];
    expected.extend_from_slice(&0x0102_0304_0506_0708u64.to_le_bytes());
    expected.extend_from_slice(&0xdead_beefu32.to_le_bytes());
    assert_eq!(buf, expected);
    assert_eq!(read_u64_le(&buf, 1), 0x0102_0304_0506_0708);
    assert_eq!(read_u32_le(&buf, 9), 0xdead_beef);
}

#[test]
fn overflow_halves_scale_and_resets_counter() {
    assert_eq!(scale_transition(LossScaleMode::Dynamic, 100, 50, true), (ScaleAdjustment::Halve, 0));
}

#[test]
fn growth_doubles_after_interval() {
    let mut counter = 0;
    for _ in 0..99 {
        let (adj, next) = scale_transition(LossScaleMode::Dynamic, 100, counter, false);
        assert_eq!(adj, ScaleAdjustment::Keep);
        counter = next;
    }
    assert_eq!(counter, 99);
    assert_eq!(scale_transition(LossScaleMode::Dynamic, 100, counter, false), (ScaleAdjustment::Double, 0));
}

#[test]
fn zero_growth_interval_doubles_every_clean_step() {
    assert_eq!(scale_transition(LossScaleMode::Dynamic, 0, 0, false), (ScaleAdjustment::Double, 0));
}

#[test]
fn static_mode_ignores_overflow_and_growth() {
    assert_eq!(scale_transition(LossScaleMode::Static, 0, 7, true), (ScaleAdjustment::Keep, 7));
    assert_eq!(scale_transition(LossScaleMode::Static, 100, 7, false), (ScaleAdjustment::Keep, 7));
}

#[test]
fn new_initializes_zero_history() {
    let ds = DelayedScaling::new(4);
    assert_eq!(ds.history_length, 4);
    assert_eq!(ds.amax_history, vec![0u32; 4]);
}

#[test]
fn update_writes_to_ring_buffer() {
    let mut ds = DelayedScaling::new(4);
    ds.update(5.0f32.to_bits());
    ds.update(3.0f32.to_bits());
    assert_eq!(f32::from_bits(ds.amax_history[0]), 5.0);
    assert_eq!(f32::from_bits(ds.amax_history[1]), 3.0);
}

#[test]
fn ring_buffer_wraps_around() {
    let mut ds = DelayedScaling::new(2);
    for v in [1.0f32, 2.0, 3.0] {
        ds.update(v.to_bits());
    }
    assert_eq!(f32::from_bits(ds.amax_history[0]), 3.0);
    assert_eq!(f32::from_bits(ds.amax_history[1]), 2.0);
}

#[test]
fn ring_buffer_full_overwrite() {
    let mut ds = DelayedScaling::new(3);
    for i in 0..10u32 {
        ds.update((i as f32).to_bits());
    }
    let held: Vec<f32> = ds.amax_history.iter().map(|b| f32::from_bits(*b)).collect();
    assert_eq!(held, vec![9.0, 7.0, 8.0]);
}

#[test]
fn block_ranges_cover_values() {
    assert_eq!(block_ranges(10, 4), vec![(0, 4), (4, 8), (8, 10)]);
    assert_eq!(block_ranges(8, 4), vec![(0, 4), (4, 8)]);
    assert_eq!(block_ranges(3, 4), vec![(0, 3)]);
    assert!(block_ranges(0, 4).is_empty());
}

#[test]
fn dequant_block_lookup() {
    assert_eq!(dequant_block(0, 10, 3, None), Some(0));
    assert_eq!(dequant_block(4, 10, 3, None), Some(1));
    assert_eq!(dequant_block(9, 10, 3, None), Some(2));
    assert_eq!(dequant_block(5, 6, 0, None), None);
    assert_eq!(dequant_block(2, 3, 1, None), Some(0));
    assert_eq!(dequant_block(4, 10, 3, Some(4)), Some(1));
    assert_eq!(dequant_block(9, 10, 2, Some(4)), None);
}

#[test]
fn dequant_block_follows_quantization_blocks() {
    // Five values in blocks of four: value 3 belongs to the first block, value 4 to the second.
    assert_eq!(block_ranges(5, 4), vec![(0, 4), (4, 5)]);
    assert_eq!(dequant_block(3, 5, 2, Some(4)), Some(0));
    assert_eq!(dequant_block(4, 5, 2, Some(4)), Some(1));
    // Nine values in blocks of four.
    assert_eq!(block_ranges(9, 4).len(), 3);
    for i in 0..9 {
        assert_eq!(dequant_block(i, 9, 3, Some(4)), Some(i / 4));
    }
}

#[test]
fn fp8_tensor_dims_layouts() {
    assert_eq!(fp8_tensor_dims(7, 1), vec![7]);
    assert_eq!(fp8_tensor_dims(8, 2), vec![2, 1]);
    assert_eq!(fp8_tensor_dims(12, 2), vec![2, 1]);
    assert_eq!(fp8_tensor_dims(27, 3), vec![3, 3, 1]);
    assert_eq!(fp8_tensor_dims(30, 3), vec![3, 3, 1]);
    assert_eq!(fp8_tensor_dims(1, 2), vec![2, 1]);
    assert_eq!(fp8_tensor_dims(10, 4), vec![4, 4, 4, 2]);
}

#[test]
fn scaler_run_keeps_counter_below_interval() {
    let overflows = [false, false, true, false, false, false, true, true, false];
    let mut counter = 0usize;
    let mut adjustments = Vec::new();
    for &overflow in &overflows {
        let (adj, next) = scale_transition(LossScaleMode::Dynamic, 3, counter, overflow);
        assert!(next < 3);
        assert_eq!(adj == ScaleAdjustment::Halve, overflow);
        adjustments.push(adj);
        counter = next;
    }
    assert_eq!(adjustments, expected_adjustments());
    let mut counter = 5usize;
    for &overflow in &overflows {
        let (adj, next) = scale_transition(LossScaleMode::Static, 3, counter, overflow);
        assert_eq!((adj, next), (ScaleAdjustment::Keep, 5));
        counter = next;
    }
}

fn expected_adjustments() -> Vec<ScaleAdjustment> {
    let (k, h, d) = (ScaleAdjustment::Keep, ScaleAdjustment::Halve, ScaleAdjustment::Double);
    vec![k, k, h, k, k, d, h, h, k]
}

#[test]
fn scaling_clone_equality() {
    let mut ds = DelayedScaling::new(4);
    ds.update(1.0f32.to_bits());
    ds.update(2.0f32.to_bits());
    assert_eq!(ds, ds.clone());
    assert!(ds.is_wf());
}
