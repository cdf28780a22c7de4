use meshtorus::comm::collective::{CommError, Communicator, ReduceOp};
use meshtorus::comm::mock::MockCommunicator;
use meshtorus::comm::tcp::{frame_len, frame_prefix, handshake_bytes, handshake_rank, peers_to_dial, LEN_PREFIX_SIZE};
use meshtorus::comm::topology_aware::{flatten_chunks, scatter_chunk, TopologyAwareComm};
use meshtorus::topology::coordinator::{CollectiveOp, TopologyAwareCommunicator};
use meshtorus::topology::hybrid::MeshTorusHybrid;
use meshtorus::topology::torus::TorusCoordinates;

fn word(val: u64) -> Vec<u8> {
    val.to_le_bytes().to_vec()
}

fn read_word(data: &[u8]) -> u64 {
    let bytes: [u8; 8] = data.try_into().unwrap();
    u64::from_le_bytes(bytes)
}

fn setup_2d_torus(w: usize, h: usize) -> Vec<TopologyAwareComm<MockCommunicator>> {
    let topo = MeshTorusHybrid::new_2d(w, h, 2).unwrap();
    MockCommunicator::create_world(w * h)
        .into_iter()
        .map(|m| TopologyAwareComm::new(m, topo.clone()))
        .collect()
}

#[test]
fn test_reduce_op_display() {
    assert_eq!(ReduceOp::Sum.to_string(), "Sum");
    assert_eq!(ReduceOp::Product.to_string(), "Product");
    assert_eq!(ReduceOp::Min.to_string(), "Min");
    assert_eq!(ReduceOp::Max.to_string(), "Max");
    assert_eq!(ReduceOp::Mean.to_string(), "Mean");
}

#[test]
fn test_reduce_op_equality() {
    assert_eq!(ReduceOp::Sum, ReduceOp::Sum);
    assert_ne!(ReduceOp::Sum, ReduceOp::Max);
}

#[test]
fn test_mock_all_reduce_sum() {
    let comms = MockCommunicator::create_world(4);
    let result = comms[0].all_reduce(word(10), ReduceOp::Sum).unwrap();
    assert_eq!(read_word(&result), 40);
}

#[test]
fn test_mock_all_reduce_sum_multi_element() {
    let comms = MockCommunicator::create_world(4);
    let mut input = Vec::new();
    input.extend_from_slice(&1u64.to_le_bytes());
    input.extend_from_slice(&2u64.to_le_bytes());
    input.extend_from_slice(&3u64.to_le_bytes());
    let result = comms[0].all_reduce(input, ReduceOp::Sum).unwrap();
    assert_eq!(result.len(), 24);
    assert_eq!(read_word(&result[0..8]), 4);
    assert_eq!(read_word(&result[8..16]), 8);
    assert_eq!(read_word(&result[16..24]), 12);
}

#[test]
fn test_mock_all_reduce_product() {
    let comms = MockCommunicator::create_world(3);
    let result = comms[0].all_reduce(word(3), ReduceOp::Product).unwrap();
    assert_eq!(read_word(&result), 27);
}

#[test]
fn test_mock_all_reduce_min_max_mean() {
    let comms = MockCommunicator::create_world(4);
    assert_eq!(read_word(&comms[0].all_reduce(word(10), ReduceOp::Min).unwrap()), 10);
    assert_eq!(read_word(&comms[0].all_reduce(word(10), ReduceOp::Max).unwrap()), 10);
    assert_eq!(read_word(&comms[0].all_reduce(word(10), ReduceOp::Mean).unwrap()), 10);
}

#[test]
fn all_reduce_ignores_trailing_partial_word() {
    let comms = MockCommunicator::create_world(2);
    let mut input = word(7);
    input.extend_from_slice(&[1, 2, 3]);
    let result = comms[0].all_reduce(input, ReduceOp::Sum).unwrap();
    assert_eq!(result, word(14));
    assert!(comms[0].all_reduce(vec![1, 2, 3], ReduceOp::Sum).unwrap().is_empty());
}

#[test]
fn apply_reduce_over_distinct_chunks() {
    let chunks = vec![word(5), word(9), word(2)];
    assert_eq!(read_word(&MockCommunicator::apply_reduce(ReduceOp::Sum, &chunks)), 16);
    assert_eq!(read_word(&MockCommunicator::apply_reduce(ReduceOp::Product, &chunks)), 90);
    assert_eq!(read_word(&MockCommunicator::apply_reduce(ReduceOp::Min, &chunks)), 2);
    assert_eq!(read_word(&MockCommunicator::apply_reduce(ReduceOp::Max, &chunks)), 9);
    assert_eq!(read_word(&MockCommunicator::apply_reduce(ReduceOp::Mean, &chunks)), 5);
    assert!(MockCommunicator::apply_reduce(ReduceOp::Sum, &[]).is_empty());
}

#[test]
fn apply_reduce_sum_wraps_around() {
    let chunks = vec![word(u64::MAX), word(2)];
    assert_eq!(read_word(&MockCommunicator::apply_reduce(ReduceOp::Sum, &chunks)), 1);
}

#[test]
fn test_mock_broadcast_from_rank_0() {
    let comms = MockCommunicator::create_world(4);
    let data = vec![42u8, 43, 44];
    for comm in &comms {
        assert_eq!(comm.broadcast(data.clone(), 0).unwrap(), data);
    }
}

#[test]
fn test_mock_send_recv() {
    let comms = MockCommunicator::create_world(2);
    let data = vec![1u8, 2, 3, 4];
    comms[0].send(data.clone(), 1).unwrap();
    assert_eq!(comms[1].recv(0).unwrap(), data);
}

#[test]
fn mock_recv_of_nothing_sent_is_empty() {
    let comms = MockCommunicator::create_world(3);
    assert!(comms[2].recv(1).unwrap().is_empty());
}

#[test]
fn mock_send_overwrites_mailbox() {
    let comms = MockCommunicator::create_world(2);
    comms[0].send(vec![1], 1).unwrap();
    comms[0].send(vec![2], 1).unwrap();
    assert_eq!(comms[1].recv(0).unwrap(), vec![2]);
}

#[test]
fn test_mock_all_gather() {
    let comms = MockCommunicator::create_world(3);
    let data = vec![99u8];
    let result = comms[0].all_gather(data.clone()).unwrap();
    assert_eq!(result, vec![data.clone(), data.clone(), data]);
}

#[test]
fn test_mock_rank_and_world_size() {
    let comms = MockCommunicator::create_world(4);
    assert_eq!(comms[0].rank(), 0);
    assert_eq!(comms[3].rank(), 3);
    assert_eq!(comms[0].world_size(), 4);
    let lone = MockCommunicator::new(5, 2);
    assert_eq!(lone.rank(), 2);
    assert_eq!(lone.world_size(), 5);
    // Four ranks, rank 0.
    let comm = MockCommunicator::new(4, 0);
    assert_eq!((comm.world_size(), comm.rank()), (4, 0));
}

#[test]
fn test_mock_send_invalid_dst() {
    let comms = MockCommunicator::create_world(2);
    assert_eq!(
        comms[0].send(vec![1], 5).unwrap_err(),
        CommError::DestinationOutOfRange { dst: 5, world_size: 2 }
    );
}

#[test]
fn test_mock_recv_invalid_src() {
    let comms = MockCommunicator::create_world(2);
    assert_eq!(comms[0].recv(5).unwrap_err(), CommError::SourceOutOfRange { src: 5, world_size: 2 });
}

#[test]
fn test_mock_broadcast_invalid_root() {
    let comms = MockCommunicator::create_world(2);
    assert_eq!(comms[0].broadcast(vec![1], 5).unwrap_err(), CommError::RootOutOfRange { root: 5, world_size: 2 });
}

#[test]
fn test_topology_aware_rank() {
    let comms = setup_2d_torus(3, 3);
    assert_eq!(comms[0].rank(), 0);
    assert_eq!(comms[8].rank(), 8);
    assert_eq!(comms[0].world_size(), 9);
}

#[test]
fn test_topology_aware_rank_coords() {
    let comms = setup_2d_torus(3, 3);
    assert_eq!(comms[0].rank_coords(), TorusCoordinates::new_2d(0, 0));
    assert_eq!(comms[5].rank_coords(), TorusCoordinates::new_2d(2, 1));
}

#[test]
fn test_exchange_with_neighbors_2d() {
    let comms = setup_2d_torus(3, 3);
    let results = comms[4].exchange_with_neighbors(vec![42u8]).unwrap();
    let ranks: Vec<usize> = results.iter().map(|(r, _)| *r).collect();
    assert_eq!(ranks, vec![5, 3, 7, 1]);
}

#[test]
fn test_exchange_with_neighbors_corner_wrap() {
    let comms = setup_2d_torus(3, 3);
    let results = comms[0].exchange_with_neighbors(vec![99u8]).unwrap();
    assert_eq!(results.len(), 4);
    let ranks: Vec<usize> = results.iter().map(|(r, _)| *r).collect();
    assert!(ranks.contains(&1));
    assert!(ranks.contains(&3));
}

#[test]
fn test_perform_collective_allreduce() {
    let comms = setup_2d_torus(2, 2);
    let result = comms[0].perform_collective(CollectiveOp::AllReduce, word(10)).unwrap();
    assert_eq!(read_word(&result), 40);
}

#[test]
fn test_perform_collective_broadcast() {
    let comms = setup_2d_torus(2, 2);
    let data = vec![1u8, 2, 3];
    assert_eq!(comms[1].perform_collective(CollectiveOp::Broadcast, data.clone()).unwrap(), data);
}

#[test]
fn test_perform_collective_allgather() {
    let comms = setup_2d_torus(2, 2);
    assert_eq!(comms[0].perform_collective(CollectiveOp::AllGather, vec![42u8]).unwrap(), vec![42u8; 4]);
}

#[test]
fn test_perform_collective_reduce_scatter() {
    let comms = setup_2d_torus(2, 2);
    let result = comms[0].perform_collective(CollectiveOp::ReduceScatter, word(10)).unwrap();
    assert_eq!(result, word(40)[0..2].to_vec());
    let last = comms[3].perform_collective(CollectiveOp::ReduceScatter, word(10)).unwrap();
    assert_eq!(last, word(40)[6..8].to_vec());
}

#[test]
fn reduce_scatter_share_beyond_buffer() {
    let topo = MeshTorusHybrid::new_2d(2, 2, 2).unwrap();
    let outside = TopologyAwareComm::new(MockCommunicator::new(4, 5), topo.clone());
    assert_eq!(
        outside.perform_collective(CollectiveOp::ReduceScatter, word(10)),
        Err(CommError::ShareOutOfRange { rank: 5, world_size: 4, len: 8 })
    );
    // A buffer too short to give any rank a byte leaves an empty share for every rank.
    assert_eq!(outside.perform_collective(CollectiveOp::ReduceScatter, vec![1, 2, 3]), Ok(vec![]));
    let empty_world = TopologyAwareComm::new(MockCommunicator::new(0, 0), topo);
    assert_eq!(empty_world.perform_collective(CollectiveOp::ReduceScatter, word(10)), Ok(vec![]));
}

#[test]
fn scatter_and_flatten_helpers() {
    assert_eq!(scatter_chunk(&vec![1, 2, 3, 4, 5, 6, 7], 1, 3), vec![3, 4]);
    assert_eq!(scatter_chunk(&vec![1, 2, 3, 4, 5, 6, 7], 2, 3), vec![5, 6]);
    assert_eq!(flatten_chunks(vec![vec![1, 2], vec![], vec![3]]), vec![1, 2, 3]);
}

#[test]
fn test_trait_nearest_neighbor_exchange() {
    let comms = setup_2d_torus(3, 3);
    let results = <TopologyAwareComm<MockCommunicator> as TopologyAwareCommunicator>::nearest_neighbor_exchange(
        &comms[4],
        vec![1u8, 2, 3],
        0,
    );
    assert_eq!(results.len(), 2);
}

#[test]
fn nearest_neighbor_exchange_receives_from_both_sides() {
    let comms = setup_2d_torus(3, 3);
    // Rank 4 sits at (1, 1); along x its neighbours are ranks 5 (positive) and 3 (negative).
    comms[5].inner().send(vec![5u8], 4).unwrap();
    comms[3].inner().send(vec![3u8], 4).unwrap();
    let results = <TopologyAwareComm<MockCommunicator> as TopologyAwareCommunicator>::nearest_neighbor_exchange(
        &comms[4],
        vec![1u8, 2, 3],
        0,
    );
    assert_eq!(results, vec![vec![5u8], vec![3u8]]);
}

#[test]
fn test_trait_all_reduce_mesh() {
    let comms = setup_2d_torus(2, 2);
    let result = <TopologyAwareComm<MockCommunicator> as TopologyAwareCommunicator>::all_reduce_mesh(
        &comms[0],
        word(42),
        &[0, 1, 2, 3],
    );
    assert_eq!(read_word(&result), 168);
}

#[test]
fn test_trait_pipeline_stage_sendrecv() {
    let comms = setup_2d_torus(2, 2);
    comms[1].inner().send(word(99), 0).unwrap();
    let result = <TopologyAwareComm<MockCommunicator> as TopologyAwareCommunicator>::pipeline_stage_sendrecv(
        &comms[0],
        word(99),
        1,
    );
    assert_eq!(read_word(&result), 99);
}

#[test]
fn test_trait_route_collective() {
    let comms = setup_2d_torus(2, 2);
    let result = <TopologyAwareComm<MockCommunicator> as TopologyAwareCommunicator>::route_collective(
        &comms[0],
        CollectiveOp::Broadcast,
        vec![42u8],
    );
    assert_eq!(result, vec![42u8]);
}

#[test]
fn test_reduce_on_mesh_group() {
    let comms = setup_2d_torus(2, 2);
    assert_eq!(read_word(&comms[0].reduce_on_mesh(word(5), &[0, 1]).unwrap()), 20);
}

#[test]
fn test_3d_topology_aware() {
    let topo = MeshTorusHybrid::new_3d(2, 2, 2, 2).unwrap();
    let comms: Vec<_> = MockCommunicator::create_world(8)
        .into_iter()
        .map(|m| TopologyAwareComm::new(m, topo.clone()))
        .collect();
    assert_eq!(comms[0].world_size(), 8);
    assert_eq!(comms[7].rank_coords(), TorusCoordinates::new_3d(1, 1, 1));
}

#[test]
fn test_inner_and_topology_access() {
    let comms = setup_2d_torus(3, 3);
    assert_eq!(comms[0].inner().rank(), 0);
    assert_eq!(comms[0].topology().total_nodes(), 9);
}

#[test]
fn tcp_dials_only_higher_ranks() {
    assert_eq!(peers_to_dial(1, 4), vec![2, 3]);
    assert_eq!(peers_to_dial(3, 4), Vec::<usize>::new());
    assert_eq!(peers_to_dial(0, 1), Vec::<usize>::new());
    assert_eq!(peers_to_dial(7, 4), Vec::<usize>::new());
}

#[test]
fn tcp_handshake_and_prefix_roundtrip() {
    assert_eq!(LEN_PREFIX_SIZE, 8);
    let hs = handshake_bytes(5);
    assert_eq!(hs, 5u64.to_le_bytes().to_vec());
    assert_eq!(handshake_rank(&hs), 5);
    let prefix = frame_prefix(65536);
    assert_eq!(prefix, 65536u64.to_le_bytes().to_vec());
    assert_eq!(frame_len(&prefix), 65536);
    assert_eq!(frame_len(&frame_prefix(0)), 0);
}

#[test]
fn tcp_each_pair_dialled_by_exactly_one_side() {
    let world = 5;
    for a in 0..world {
        for b in 0..world {
            if a != b {
                let a_dials_b = peers_to_dial(a, world).contains(&b);
                let b_dials_a = peers_to_dial(b, world).contains(&a);
                assert!(a_dials_b != b_dials_a, "pair {a} {b}");
            }
        }
    }
}
