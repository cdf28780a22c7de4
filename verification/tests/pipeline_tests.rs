use meshtorus::comm::collective::{CommError, Communicator};
use meshtorus::comm::mock::MockCommunicator;
use meshtorus::pipeline::checkpoint::{CheckpointAction, CheckpointStrategy};
use meshtorus::pipeline::communicator::{Fp8Payload, PipelineComm};
use meshtorus::pipeline::executor::{PipelineConfig, ScheduleType};
use meshtorus::pipeline::placement::{compute_hop_distance, topology_aware_placement};
use meshtorus::pipeline::schedule::{activation_sources, GpipeSchedule, OneF1BSchedule, Op, ScheduleKind};
use meshtorus::pipeline::schedule::Op::{Backward as B, Forward as F};
use meshtorus::pipeline::stage::StageData;
use meshtorus::precision::config::Fp8Format;
use meshtorus::topology::hybrid::MeshTorusHybrid;
use meshtorus::topology::torus::TorusCoordinates;

fn bits(values: &[f32]) -> Vec<u32> {
    values.iter().map(|v| v.to_bits()).collect()
}

#[test]
fn test_placement_linear_2d() {
    let topo = MeshTorusHybrid::new_2d(4, 1, 2).unwrap();
    let placement = topology_aware_placement(4, &topo);
    assert_eq!(placement.len(), 4);
    for (i, (stage_id, coords)) in placement.iter().enumerate() {
        assert_eq!(*stage_id, i);
        assert_eq!(*coords, TorusCoordinates::new_2d(i, 0));
    }
}

#[test]
fn test_placement_3d() {
    let topo = MeshTorusHybrid::new_3d(2, 2, 2, 4).unwrap();
    let placement = topology_aware_placement(8, &topo);
    assert_eq!(placement.len(), 8);
    assert_eq!(placement[7].1, TorusCoordinates::new_3d(1, 1, 1));
}

#[test]
fn test_placement_adjacent_stages_adjacent_nodes() {
    let topo = MeshTorusHybrid::new_2d(4, 1, 2).unwrap();
    let placement = topology_aware_placement(4, &topo);
    for i in 0..placement.len() - 1 {
        let dist = compute_hop_distance(&placement[i].1, &placement[i + 1].1, &topo);
        assert_eq!(dist, 1, "adjacent stages should be 1 hop apart, got {} for stage {}", dist, i);
    }
}

#[test]
fn test_torus_distance_same_forward_and_wrap() {
    let topo = MeshTorusHybrid::new_2d(5, 1, 1).unwrap();
    let at = |x: usize| TorusCoordinates::new_2d(x, 0);
    assert_eq!(compute_hop_distance(&at(2), &at(2), &topo), 0);
    assert_eq!(compute_hop_distance(&at(0), &at(2), &topo), 2);
    assert_eq!(compute_hop_distance(&at(0), &at(4), &topo), 1);
    assert_eq!(compute_hop_distance(&at(4), &at(0), &topo), 1);
}

#[test]
fn test_compute_hop_distance_2d() {
    let topo = MeshTorusHybrid::new_2d(4, 4, 2).unwrap();
    let a = TorusCoordinates::new_2d(0, 0);
    let b = TorusCoordinates::new_2d(1, 1);
    assert_eq!(compute_hop_distance(&a, &b, &topo), 2);
}

#[test]
fn test_compute_hop_distance_3d() {
    let topo = MeshTorusHybrid::new_3d(4, 4, 4, 2).unwrap();
    let a = TorusCoordinates::new_3d(0, 0, 0);
    let b = TorusCoordinates::new_3d(1, 1, 1);
    assert_eq!(compute_hop_distance(&a, &b, &topo), 3);
}

#[test]
fn hop_distance_ignores_z_of_a_2d_node() {
    let topo = MeshTorusHybrid::new_3d(4, 4, 4, 2).unwrap();
    let a = TorusCoordinates::new_2d(0, 0);
    let b = TorusCoordinates::new_3d(0, 0, 2);
    assert_eq!(compute_hop_distance(&a, &b, &topo), 0);
}

#[test]
fn test_placement_fewer_stages_than_nodes() {
    let topo = MeshTorusHybrid::new_2d(4, 4, 2).unwrap();
    assert_eq!(topology_aware_placement(3, &topo).len(), 3);
}

#[test]
fn onef1b_schedule_of_three_stages() {
    let s = OneF1BSchedule::build_schedule(3, 4);
    assert_eq!(s.len(), 3);
    assert_eq!(s[0], vec![F(0), F(1), F(2), B(0), F(3), B(1), B(2), B(3)]);
    assert_eq!(s[1], vec![F(0), F(1), B(0), F(2), B(1), F(3), B(2), B(3)]);
    assert_eq!(s[2], vec![F(0), B(0), F(1), B(1), F(2), B(2), F(3), B(3)]);
}

#[test]
fn onef1b_schedule_with_fewer_microbatches_than_warmup() {
    let s = OneF1BSchedule::build_schedule(4, 2);
    assert_eq!(s[0], vec![F(0), F(1), B(0), B(1)]);
    assert_eq!(s[3], vec![F(0), B(0), F(1), B(1)]);
    assert!(OneF1BSchedule::build_schedule(0, 3).is_empty());
    assert_eq!(OneF1BSchedule::build_schedule(2, 0), vec![Vec::<Op>::new(), Vec::new()]);
}

#[test]
fn onef1b_execution_order_is_round_robin() {
    let order = OneF1BSchedule::execution_order(2, 2);
    assert_eq!(
        order,
        vec![(0, F(0)), (1, F(0)), (0, F(1)), (1, B(0)), (0, B(0)), (1, F(1)), (0, B(1)), (1, B(1))]
    );
}

#[test]
fn onef1b_forward_never_precedes_previous_stage() {
    let order = OneF1BSchedule::execution_order(4, 6);
    assert_eq!(order.len(), 48);
    for (k, (stage, op)) in order.iter().enumerate() {
        if let Op::Forward(mb) = op {
            if *stage > 0 {
                assert!(order[..k].contains(&(stage - 1, Op::Forward(*mb))));
            }
        }
        if let Op::Backward(mb) = op {
            assert!(order[..k].contains(&(*stage, Op::Forward(*mb))));
        }
    }
}

#[test]
fn test_onef1b_interleaving_counts() {
    let order = OneF1BSchedule::execution_order(2, 4);
    let fw = order.iter().filter(|(_, op)| matches!(op, Op::Forward(_))).count();
    let bw = order.iter().filter(|(_, op)| matches!(op, Op::Backward(_))).count();
    assert_eq!(fw, 8);
    assert_eq!(bw, 8);
}

#[test]
fn gpipe_order_all_forward_then_backward() {
    let order = GpipeSchedule::execution_order(2, 2);
    assert_eq!(
        order,
        vec![(0, F(0)), (1, F(0)), (0, F(1)), (1, F(1)), (1, B(0)), (0, B(0)), (1, B(1)), (0, B(1))]
    );
    let last_fw = order.iter().rposition(|(_, op)| matches!(op, Op::Forward(_))).unwrap();
    let first_bw = order.iter().position(|(_, op)| matches!(op, Op::Backward(_))).unwrap();
    assert!(last_fw < first_bw);
}

#[test]
fn gpipe_order_without_stages_is_empty() {
    assert!(GpipeSchedule::execution_order(0, 4).is_empty());
    assert!(OneF1BSchedule::execution_order(0, 4).is_empty());
}

#[test]
fn schedule_kind_dispatches() {
    let g = ScheduleKind::for_type(ScheduleType::Gpipe);
    let o = ScheduleKind::for_type(ScheduleType::OneF1B);
    assert_eq!(g, ScheduleKind::Gpipe(GpipeSchedule));
    assert_eq!(o, ScheduleKind::OneF1B(OneF1BSchedule));
    assert_eq!(g.execution_order(3, 2), GpipeSchedule::execution_order(3, 2));
    assert_eq!(o.execution_order(3, 2), OneF1BSchedule::execution_order(3, 2));
}

#[test]
fn test_default_pipeline_config() {
    let config = PipelineConfig::default();
    assert_eq!(config.num_stages, 1);
    assert_eq!(config.num_microbatches, 1);
    assert_eq!(config.checkpoint_strategy, CheckpointStrategy::Disabled);
    assert_eq!(config.schedule_type, ScheduleType::Gpipe);
}

#[test]
fn test_schedule_type_equality() {
    assert_eq!(ScheduleType::Gpipe, ScheduleType::Gpipe);
    assert_ne!(ScheduleType::Gpipe, ScheduleType::OneF1B);
}

#[test]
fn test_checkpoint_strategy_variants() {
    assert_ne!(CheckpointStrategy::Full, CheckpointStrategy::Disabled);
    assert_ne!(CheckpointStrategy::Selective, CheckpointStrategy::Full);
    assert_eq!(CheckpointStrategy::Full, CheckpointStrategy::Full);
}

#[test]
fn checkpoint_actions() {
    assert_eq!(CheckpointStrategy::Disabled.action(3), CheckpointAction::Plain);
    assert_eq!(CheckpointStrategy::Full.action(3), CheckpointAction::CacheInput);
    assert_eq!(CheckpointStrategy::Selective.action(1), CheckpointAction::CacheInput);
    assert_eq!(CheckpointStrategy::Selective.action(2), CheckpointAction::SplitAndCacheInput(1));
    assert_eq!(CheckpointStrategy::Selective.action(5), CheckpointAction::SplitAndCacheInput(2));
}

#[test]
fn test_stage_data_to_from_bytes() {
    let data = StageData::new(bits(&[1.0, 2.0, 3.0, 4.0]), 2, 2);
    let bytes = data.to_bytes();
    assert_eq!(bytes.len(), 16 + 16);
    assert_eq!(&bytes[0..8], &2u64.to_le_bytes());
    assert_eq!(&bytes[16..20], &1.0f32.to_le_bytes());
    let recovered = StageData::from_bytes(&bytes);
    assert_eq!(recovered.rows, 2);
    assert_eq!(recovered.cols, 2);
    assert_eq!(recovered.values, data.values);
}

#[test]
fn stage_data_try_from_bytes() {
    let data = StageData::new(bits(&[1.0, 2.0, 3.0, 4.0]), 2, 2);
    let bytes = data.to_bytes();
    assert_eq!(StageData::try_from_bytes(&bytes), Some(data.clone()));
    assert_eq!(StageData::try_from_bytes(&bytes[..31]), None);
    assert_eq!(StageData::try_from_bytes(&bytes[..15]), None);
    let mut huge = Vec::new();
    huge.extend_from_slice(&u64::MAX.to_le_bytes());
    huge.extend_from_slice(&2u64.to_le_bytes());
    assert_eq!(StageData::try_from_bytes(&huge), None);
}

#[test]
fn test_stage_data_zeros() {
    let data = StageData::zeros(3, 4);
    assert_eq!(data.rows, 3);
    assert_eq!(data.cols, 4);
    assert_eq!(data.len(), 12);
    assert!(data.values.iter().all(|&v| f32::from_bits(v) == 0.0));
    assert!(StageData::zeros(0, 4).is_empty());
}

#[test]
fn stage_data_clone_is_equal() {
    let data = StageData::new(bits(&[0.5, -0.5]), 1, 2);
    assert_eq!(data.clone(), data);
}

fn payload(format: Fp8Format) -> Fp8Payload {
    Fp8Payload { rows: 2, cols: 3, format, scale_bits: 448.0f32.to_bits(), data: vec![1, 2, 3, 250, 251, 252] }
}

#[test]
fn test_compression_decompression_roundtrip() {
    let comm = PipelineComm::new(MockCommunicator::new(1, 0));
    let p = payload(Fp8Format::E4M3);
    let bytes = comm.compress_stage_data(&p);
    assert_eq!(bytes.len(), 29 + 6);
    assert_eq!(bytes[16], 0);
    assert_eq!(&bytes[17..21], &448.0f32.to_le_bytes());
    assert_eq!(comm.decompress_stage_data(&bytes).unwrap(), p);
}

#[test]
fn e5m2_frames_carry_format_byte_one() {
    let comm = PipelineComm::new(MockCommunicator::new(1, 0)).with_fp8_format(Fp8Format::E5M2);
    let p = payload(Fp8Format::E5M2);
    let bytes = comm.compress_stage_data(&p);
    assert_eq!(bytes[16], 1);
    assert_eq!(comm.decompress_stage_data(&bytes).unwrap().format, Fp8Format::E5M2);
}

#[test]
fn malformed_frames_are_refused() {
    let comm = PipelineComm::new(MockCommunicator::new(1, 0));
    assert_eq!(comm.decompress_stage_data(&[0u8; 28]).unwrap_err(), CommError::MalformedFrame);
    let mut bytes = comm.compress_stage_data(&payload(Fp8Format::E4M3));
    bytes.pop();
    assert_eq!(comm.decompress_stage_data(&bytes).unwrap_err(), CommError::MalformedFrame);
}

#[test]
fn unknown_format_byte_reads_as_e4m3() {
    let comm = PipelineComm::new(MockCommunicator::new(1, 0));
    let mut bytes = comm.compress_stage_data(&payload(Fp8Format::E4M3));
    bytes[16] = 7;
    assert_eq!(comm.decompress_stage_data(&bytes).unwrap().format, Fp8Format::E4M3);
}

#[test]
fn test_send_recv_activations_and_gradients() {
    let comms: Vec<_> = MockCommunicator::create_world(2).into_iter().map(PipelineComm::new).collect();
    let p = payload(Fp8Format::E4M3);
    comms[0].send_activations(&p, 1).unwrap();
    assert_eq!(comms[1].recv_activations(0).unwrap(), p);
    comms[1].send_gradients(&p, 0).unwrap();
    assert_eq!(comms[0].recv_gradients(1).unwrap(), p);
    assert_eq!(comms[0].recv_gradients(0).unwrap_err(), CommError::MalformedFrame);
    assert!(comms[0].send_activations(&p, 9).is_err());
}

#[test]
fn test_fp8_format_config() {
    let comm = PipelineComm::new(MockCommunicator::new(1, 0));
    assert_eq!(comm.fp8_format(), Fp8Format::E4M3);
    let comm = comm.with_fp8_format(Fp8Format::E5M2);
    assert_eq!(comm.fp8_format(), Fp8Format::E5M2);
}

#[test]
fn test_pipeline_rank_and_world_size() {
    let comm = PipelineComm::new(MockCommunicator::create_world(4).into_iter().nth(2).unwrap());
    assert_eq!(comm.rank(), 2);
    assert_eq!(comm.world_size(), 4);
    let raw = MockCommunicator::new(3, 1);
    assert_eq!(raw.rank(), 1);
}

#[test]
fn hop_distance_symmetric_and_one_to_each_neighbor() {
    let topo = MeshTorusHybrid::new_3d(4, 3, 2, 1).unwrap();
    let dims = topo.dims;
    for i in 0..dims.total_nodes() {
        let c = TorusCoordinates::from_linear(i, &dims);
        assert_eq!(compute_hop_distance(&c, &c, &topo), 0);
        for j in 0..dims.total_nodes() {
            let d = TorusCoordinates::from_linear(j, &dims);
            assert_eq!(compute_hop_distance(&c, &d, &topo), compute_hop_distance(&d, &c, &topo));
        }
        for axis in 0..3 {
            for positive in [true, false] {
                let n = c.neighbor(&dims, axis, positive);
                assert_eq!(compute_hop_distance(&c, &n, &topo), 1);
            }
        }
    }
}

#[test]
fn consecutive_ranks_in_a_row_are_one_hop_apart() {
    let topo = MeshTorusHybrid::new_3d(3, 2, 2, 1).unwrap();
    let placement = topology_aware_placement(12, &topo);
    for i in 0..11 {
        if (i + 1) % 3 != 0 {
            assert_eq!(compute_hop_distance(&placement[i].1, &placement[i + 1].1, &topo), 1);
        }
    }
}

#[test]
fn onef1b_forward_passes_find_their_activations() {
    let order = OneF1BSchedule::execution_order(3, 4);
    let sources = activation_sources(&order);
    assert_eq!(sources.len(), order.len());
    for (k, &(stage, op)) in order.iter().enumerate() {
        match (stage, op) {
            (s, Op::Forward(mb)) if s > 0 => {
                let j = sources[k].expect("every later-stage forward pass has a producer");
                assert!(j < k);
                assert_eq!(order[j], (s - 1, Op::Forward(mb)));
            }
            _ => assert_eq!(sources[k], None),
        }
    }
    assert_eq!(activation_sources(&vec![(1, Op::Forward(0))]), vec![None]);
}
