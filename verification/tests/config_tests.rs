use meshtorus::model_split::split_evenly;
use meshtorus::precision::config::{Fp8Format, MasterFormat, MixedPrecisionConfig, ScalingStrategy};

#[test]
fn split_evenly_basic() {
    let ranges = split_evenly(10, 3);
    assert_eq!(ranges.len(), 3);
    assert_eq!(ranges, vec![(0, 4), (4, 7), (7, 10)]);
}

#[test]
fn split_evenly_exact() {
    let ranges = split_evenly(6, 3);
    assert_eq!(ranges, vec![(0, 2), (2, 4), (4, 6)]);
}

#[test]
fn split_evenly_more_stages_than_items() {
    let ranges = split_evenly(2, 5);
    assert_eq!(ranges.len(), 2);
    assert_eq!(ranges, vec![(0, 1), (1, 2)]);
}

#[test]
fn split_evenly_single_stage() {
    let ranges = split_evenly(5, 1);
    assert_eq!(ranges, vec![(0, 5)]);
}

#[test]
fn split_evenly_zero_count() {
    let ranges = split_evenly(0, 3);
    assert!(ranges.is_empty());
}

#[test]
fn split_evenly_zero_stages() {
    let ranges = split_evenly(5, 0);
    assert!(ranges.is_empty());
}

#[test]
fn split_evenly_partition_of_large_count() {
    let ranges = split_evenly(23, 5);
    assert_eq!(ranges, vec![(0, 5), (5, 10), (10, 15), (15, 19), (19, 23)]);
    for w in ranges.windows(2) {
        assert_eq!(w[0].1, w[1].0);
    }
}

#[test]
fn mixed_precision_config_defaults() {
    let config = MixedPrecisionConfig::default();
    assert_eq!(config.forward_format, Fp8Format::E4M3);
    assert_eq!(config.backward_format, Fp8Format::E5M2);
}

#[test]
fn default_config_has_e4m3_forward() {
    let cfg = MixedPrecisionConfig::default();
    assert_eq!(cfg.forward_format, Fp8Format::E4M3);
}

#[test]
fn default_config_has_e5m2_backward() {
    let cfg = MixedPrecisionConfig::default();
    assert_eq!(cfg.backward_format, Fp8Format::E5M2);
}

#[test]
fn default_config_has_fp32_master() {
    let cfg = MixedPrecisionConfig::default();
    assert_eq!(cfg.master_format, MasterFormat::Fp32);
}

#[test]
fn default_config_has_delayed_scaling() {
    let cfg = MixedPrecisionConfig::default();
    assert_eq!(
        cfg.scaling_strategy,
        ScalingStrategy::Delayed { history_length: 1024 }
    );
}

#[test]
fn fp8_format_clone_eq() {
    for format in [Fp8Format::E4M3, Fp8Format::E5M2] {
        assert_eq!(format, format.clone());
    }
}

#[test]
fn master_format_clone_eq() {
    for format in [MasterFormat::Fp32, MasterFormat::Bf16] {
        assert_eq!(format, format.clone());
    }
}

#[test]
fn custom_config() {
    let cfg = MixedPrecisionConfig {
        forward_format: Fp8Format::E5M2,
        backward_format: Fp8Format::E4M3,
        master_format: MasterFormat::Bf16,
        scaling_strategy: ScalingStrategy::Dynamic,
    };
    assert_eq!(cfg.forward_format, Fp8Format::E5M2);
    assert_eq!(cfg.backward_format, Fp8Format::E4M3);
    assert_eq!(cfg.master_format, MasterFormat::Bf16);
    assert_eq!(cfg.scaling_strategy, ScalingStrategy::Dynamic);
}
