use meshtorus::topology::coordinator::{CollectiveOp, DummyCommunicator, TopologyAwareCommunicator};
use meshtorus::topology::device::GPUDevice;
use meshtorus::topology::discovery::{discover_devices, discover_manual, discover_mesh, DiscoveryConfig};
use meshtorus::topology::error::TopologyError;
use meshtorus::topology::hybrid::MeshTorusHybrid;
use meshtorus::topology::mesh::IntraNodeMesh;
use meshtorus::topology::torus::{wrap_neighbor, TorusCoordinates, TorusDimensions};

#[test]
fn test_2d_coordinates() {
    let c = TorusCoordinates::new_2d(1, 2);
    assert_eq!(c.x, 1);
    assert_eq!(c.y, 2);
    assert!(c.z.is_none());
    assert!(!c.is_3d());
}

#[test]
fn test_3d_coordinates() {
    let c = TorusCoordinates::new_3d(1, 2, 3);
    assert_eq!(c.x, 1);
    assert_eq!(c.y, 2);
    assert_eq!(c.z, Some(3));
    assert!(c.is_3d());
}

#[test]
fn test_2d_linear_index() {
    let dims = TorusDimensions::new_2d(4, 3);
    let c = TorusCoordinates::new_2d(2, 1);
    assert_eq!(c.linear_index(&dims), 6);
}

#[test]
fn test_3d_linear_index() {
    let dims = TorusDimensions::new_3d(4, 3, 2);
    let c = TorusCoordinates::new_3d(2, 1, 1);
    assert_eq!(c.linear_index(&dims), 18);
}

#[test]
fn test_from_linear_2d() {
    let dims = TorusDimensions::new_2d(4, 3);
    assert_eq!(TorusCoordinates::from_linear(6, &dims), TorusCoordinates::new_2d(2, 1));
}

#[test]
fn test_from_linear_3d() {
    let dims = TorusDimensions::new_3d(4, 3, 2);
    assert_eq!(TorusCoordinates::from_linear(18, &dims), TorusCoordinates::new_3d(2, 1, 1));
}

#[test]
fn linear_index_and_from_linear_are_inverse() {
    let dims = TorusDimensions::new_3d(3, 4, 2);
    for i in 0..dims.total_nodes() {
        let c = TorusCoordinates::from_linear(i, &dims);
        assert_eq!(c.linear_index(&dims), i);
    }
}

#[test]
fn test_2d_neighbors_interior() {
    let dims = TorusDimensions::new_2d(4, 4);
    let c = TorusCoordinates::new_2d(1, 1);
    let neighbors = c.neighbors(&dims);
    let coords: Vec<_> = neighbors.iter().map(|(coord, _)| *coord).collect();
    assert_eq!(
        coords,
        vec![
            TorusCoordinates::new_2d(2, 1),
            TorusCoordinates::new_2d(0, 1),
            TorusCoordinates::new_2d(1, 2),
            TorusCoordinates::new_2d(1, 0),
        ]
    );
    let axes: Vec<_> = neighbors.iter().map(|(_, a)| *a).collect();
    assert_eq!(axes, vec![0, 0, 1, 1]);
}

#[test]
fn test_2d_neighbors_wrap() {
    let dims = TorusDimensions::new_2d(3, 3);
    let c = TorusCoordinates::new_2d(0, 0);
    assert_eq!(c.neighbor(&dims, 0, true), TorusCoordinates::new_2d(1, 0));
    assert_eq!(c.neighbor(&dims, 0, false), TorusCoordinates::new_2d(2, 0));
    assert_eq!(c.neighbor(&dims, 1, true), TorusCoordinates::new_2d(0, 1));
    assert_eq!(c.neighbor(&dims, 1, false), TorusCoordinates::new_2d(0, 2));
}

#[test]
fn test_3d_neighbors() {
    let dims = TorusDimensions::new_3d(3, 3, 3);
    let c = TorusCoordinates::new_3d(1, 1, 1);
    let neighbors = c.neighbors(&dims);
    assert_eq!(neighbors.len(), 6);
    let coords: Vec<_> = neighbors.into_iter().map(|(coord, _)| coord).collect();
    assert!(coords.contains(&TorusCoordinates::new_3d(2, 1, 1)));
    assert!(coords.contains(&TorusCoordinates::new_3d(0, 1, 1)));
    assert!(coords.contains(&TorusCoordinates::new_3d(1, 2, 1)));
    assert!(coords.contains(&TorusCoordinates::new_3d(1, 0, 1)));
    assert!(coords.contains(&TorusCoordinates::new_3d(1, 1, 2)));
    assert!(coords.contains(&TorusCoordinates::new_3d(1, 1, 0)));
}

#[test]
fn test_3d_neighbors_wrap() {
    let dims = TorusDimensions::new_3d(3, 3, 3);
    let c = TorusCoordinates::new_3d(0, 0, 0);
    assert_eq!(c.neighbor(&dims, 0, false), TorusCoordinates::new_3d(2, 0, 0));
    assert_eq!(c.neighbor(&dims, 1, false), TorusCoordinates::new_3d(0, 2, 0));
    assert_eq!(c.neighbor(&dims, 2, false), TorusCoordinates::new_3d(0, 0, 2));
    assert_eq!(c.neighbor(&dims, 2, true), TorusCoordinates::new_3d(0, 0, 1));
}

#[test]
fn neighbor_of_2d_along_depth_axis_gets_depth_zero() {
    let dims = TorusDimensions::new_2d(3, 3);
    let c = TorusCoordinates::new_2d(1, 1);
    assert_eq!(c.neighbor(&dims, 2, true), TorusCoordinates::new_3d(1, 1, 0));
}

#[test]
fn neighbor_steps_undo_each_other() {
    let dims = TorusDimensions::new_3d(4, 3, 2);
    for i in 0..dims.total_nodes() {
        let c = TorusCoordinates::from_linear(i, &dims);
        for axis in 0..3 {
            let there = c.neighbor(&dims, axis, true);
            assert_eq!(there.neighbor(&dims, axis, false), c);
        }
    }
}

#[test]
fn wrap_neighbor_values() {
    assert_eq!(wrap_neighbor(4, 5, true), 0);
    assert_eq!(wrap_neighbor(0, 5, false), 4);
    assert_eq!(wrap_neighbor(2, 5, true), 3);
    assert_eq!(wrap_neighbor(0, 1, true), 0);
}

#[test]
fn test_dimensions_total_nodes_2d() {
    assert_eq!(TorusDimensions::new_2d(4, 3).total_nodes(), 12);
}

#[test]
fn test_dimensions_total_nodes_3d() {
    assert_eq!(TorusDimensions::new_3d(4, 3, 2).total_nodes(), 24);
}

#[test]
fn test_dimensions_axis_count() {
    assert_eq!(TorusDimensions::new_2d(4, 3).axis_count(), 2);
    assert_eq!(TorusDimensions::new_3d(4, 3, 2).axis_count(), 3);
}

#[test]
fn test_device_new() {
    let dev = GPUDevice::new(0, Some(1), "0000:01:00.0", vec![1, 2, 3]);
    assert_eq!(dev.id, 0);
    assert_eq!(dev.numa_node, Some(1));
    assert_eq!(dev.pci_bus_id, "0000:01:00.0");
    assert_eq!(dev.nvlink_peers, vec![1, 2, 3]);
}

#[test]
fn test_device_simple() {
    let dev = GPUDevice::simple(2, 4);
    assert_eq!(dev.id, 2);
    assert_eq!(dev.nvlink_peers, vec![0, 1, 3]);
    assert!(dev.numa_node.is_none());
    assert_eq!(dev.pci_bus_id, "0000:02:00.0");
}

#[test]
fn device_simple_bus_id_is_decimal() {
    assert_eq!(GPUDevice::simple(12, 13).pci_bus_id, "0000:012:00.0");
}

#[test]
fn test_is_nvlink_peer() {
    let dev = GPUDevice::new(0, None, "0000:00:00.0", vec![1, 2, 3]);
    assert!(dev.is_nvlink_peer(1));
    assert!(dev.is_nvlink_peer(3));
    assert!(!dev.is_nvlink_peer(4));
}

#[test]
fn test_peer_count() {
    let dev = GPUDevice::new(0, None, "0000:00:00.0", vec![1, 2, 3]);
    assert_eq!(dev.peer_count(), 3);
}

#[test]
fn device_clone_is_equal() {
    let dev = GPUDevice::new(3, Some(0), "0000:04:00.0", vec![0, 1]);
    assert_eq!(dev.clone(), dev);
}

#[test]
fn test_full_mesh_4() {
    let mesh = IntraNodeMesh::full_mesh(4).unwrap();
    assert_eq!(mesh.device_count(), 4);
    assert!(mesh.all_pairs_nvlinked());
}

#[test]
fn test_full_mesh_8() {
    let mesh = IntraNodeMesh::full_mesh(8).unwrap();
    assert_eq!(mesh.device_count(), 8);
    assert!(mesh.all_pairs_nvlinked());
}

#[test]
fn test_full_mesh_1() {
    let mesh = IntraNodeMesh::full_mesh(1).unwrap();
    assert_eq!(mesh.device_count(), 1);
    assert!(mesh.all_pairs_nvlinked());
}

#[test]
fn test_empty_mesh_fails() {
    assert_eq!(IntraNodeMesh::full_mesh(0).unwrap_err(), TopologyError::EmptyMesh);
    assert_eq!(IntraNodeMesh::new(vec![]).unwrap_err(), TopologyError::EmptyMesh);
}

#[test]
fn test_custom_mesh() {
    let devices = vec![
        GPUDevice::new(0, Some(0), "0000:01:00.0", vec![1, 2]),
        GPUDevice::new(1, Some(0), "0000:02:00.0", vec![0, 2]),
        GPUDevice::new(2, Some(1), "0000:03:00.0", vec![0, 1]),
    ];
    let mesh = IntraNodeMesh::new(devices).unwrap();
    assert_eq!(mesh.device_count(), 3);
    assert!(mesh.are_nvlinked(0, 1));
    assert!(mesh.are_nvlinked(1, 2));
    assert!(mesh.are_nvlinked(0, 2));
}

#[test]
fn partial_mesh_is_not_all_pairs() {
    let devices = vec![
        GPUDevice::new(0, None, "a", vec![1]),
        GPUDevice::new(1, None, "b", vec![0]),
        GPUDevice::new(2, None, "c", vec![]),
    ];
    let mesh = IntraNodeMesh::new(devices).unwrap();
    assert!(mesh.are_nvlinked(0, 1));
    assert!(!mesh.are_nvlinked(2, 0));
    assert!(!mesh.are_nvlinked(7, 0));
    assert!(!mesh.all_pairs_nvlinked());
}

#[test]
fn test_device_lookup() {
    let mesh = IntraNodeMesh::full_mesh(4).unwrap();
    let dev = mesh.device(2).unwrap();
    assert_eq!(dev.id, 2);
    assert_eq!(dev.nvlink_peers, vec![0, 1, 3]);
}

#[test]
fn test_device_not_found() {
    let mesh = IntraNodeMesh::full_mesh(2).unwrap();
    assert!(mesh.device(5).is_none());
}

#[test]
fn test_invalid_device_id_fails() {
    let devices = vec![
        GPUDevice::new(0, None, "0000:00:00.0", vec![1]),
        GPUDevice::new(5, None, "0000:01:00.0", vec![0]),
    ];
    assert_eq!(
        IntraNodeMesh::new(devices).unwrap_err(),
        TopologyError::DeviceIdOutOfRange { id: 5, device_count: 2 }
    );
}

#[test]
fn test_2d_hybrid() {
    let hybrid = MeshTorusHybrid::new_2d(3, 3, 4).unwrap();
    assert_eq!(hybrid.total_nodes(), 9);
    assert_eq!(hybrid.devices_per_node(), 4);
    assert_eq!(hybrid.total_devices(), 36);
}

#[test]
fn test_3d_hybrid() {
    let hybrid = MeshTorusHybrid::new_3d(2, 2, 2, 8).unwrap();
    assert_eq!(hybrid.total_nodes(), 8);
    assert_eq!(hybrid.devices_per_node(), 8);
    assert_eq!(hybrid.total_devices(), 64);
}

#[test]
fn test_2d_zero_fails() {
    assert!(MeshTorusHybrid::new_2d(0, 3, 4).is_err());
    assert!(MeshTorusHybrid::new_2d(3, 0, 4).is_err());
    assert_eq!(MeshTorusHybrid::new_2d(3, 3, 0).unwrap_err(), TopologyError::ZeroExtent);
}

#[test]
fn test_3d_zero_fails() {
    assert!(MeshTorusHybrid::new_3d(0, 2, 2, 4).is_err());
    assert!(MeshTorusHybrid::new_3d(2, 0, 2, 4).is_err());
    assert!(MeshTorusHybrid::new_3d(2, 2, 0, 4).is_err());
    assert!(MeshTorusHybrid::new_3d(2, 2, 2, 0).is_err());
}

#[test]
fn test_node_at_2d() {
    let hybrid = MeshTorusHybrid::new_2d(3, 3, 4).unwrap();
    let node = hybrid.node_at(&TorusCoordinates::new_2d(1, 2)).unwrap();
    assert_eq!(node.device_count(), 4);
}

#[test]
fn test_node_at_3d() {
    let hybrid = MeshTorusHybrid::new_3d(2, 3, 2, 4).unwrap();
    let node = hybrid.node_at(&TorusCoordinates::new_3d(1, 2, 1)).unwrap();
    assert_eq!(node.device_count(), 4);
}

#[test]
fn node_at_outside_is_none() {
    let hybrid = MeshTorusHybrid::new_2d(2, 2, 1).unwrap();
    assert!(hybrid.node_at(&TorusCoordinates::new_2d(1, 5)).is_none());
}

#[test]
fn node_at_mut_changes_the_node() {
    let mut hybrid = MeshTorusHybrid::new_2d(2, 2, 2).unwrap();
    let coords = TorusCoordinates::new_2d(1, 1);
    *hybrid.node_at_mut(&coords).unwrap() = IntraNodeMesh::full_mesh(5).unwrap();
    assert_eq!(hybrid.node_at(&coords).unwrap().device_count(), 5);
    assert_eq!(hybrid.node_at(&TorusCoordinates::new_2d(0, 0)).unwrap().device_count(), 2);
}

#[test]
fn test_global_device_id() {
    let hybrid = MeshTorusHybrid::new_2d(3, 3, 4).unwrap();
    let coords = TorusCoordinates::new_2d(1, 1);
    assert_eq!(hybrid.global_device_id(&coords, 0), 16);
    assert_eq!(hybrid.global_device_id(&coords, 3), 19);
}

#[test]
fn test_node_neighbors_2d() {
    let hybrid = MeshTorusHybrid::new_2d(3, 3, 4).unwrap();
    let neighbors = hybrid.node_neighbors(&TorusCoordinates::new_2d(1, 1));
    assert_eq!(neighbors.len(), 4);
    let coords: Vec<_> = neighbors.iter().map(|(c, _)| *c).collect();
    assert!(coords.contains(&TorusCoordinates::new_2d(2, 1)));
    assert!(coords.contains(&TorusCoordinates::new_2d(0, 1)));
    assert!(coords.contains(&TorusCoordinates::new_2d(1, 2)));
    assert!(coords.contains(&TorusCoordinates::new_2d(1, 0)));
}

#[test]
fn test_node_neighbors_3d() {
    let hybrid = MeshTorusHybrid::new_3d(3, 3, 3, 4).unwrap();
    assert_eq!(hybrid.node_neighbors(&TorusCoordinates::new_3d(1, 1, 1)).len(), 6);
}

#[test]
fn test_rank_roundtrip_2d() {
    let hybrid = MeshTorusHybrid::new_2d(4, 3, 2).unwrap();
    for rank in 0..hybrid.total_nodes() {
        let coords = hybrid.rank_to_coords(rank);
        assert_eq!(hybrid.node_rank(&coords), rank);
    }
}

#[test]
fn test_rank_roundtrip_3d() {
    let hybrid = MeshTorusHybrid::new_3d(3, 4, 2, 2).unwrap();
    for rank in 0..hybrid.total_nodes() {
        let coords = hybrid.rank_to_coords(rank);
        assert_eq!(hybrid.node_rank(&coords), rank);
    }
}

#[test]
fn test_2d_corner_neighbors_wrap() {
    let hybrid = MeshTorusHybrid::new_2d(3, 3, 2).unwrap();
    let neighbors = hybrid.node_neighbors(&TorusCoordinates::new_2d(0, 0));
    assert_eq!(neighbors.len(), 4);
    let coords: Vec<_> = neighbors.iter().map(|(c, _)| *c).collect();
    assert!(coords.contains(&TorusCoordinates::new_2d(2, 0)));
    assert!(coords.contains(&TorusCoordinates::new_2d(0, 2)));
}

#[test]
fn test_manual_discovery_default() {
    let devices = discover_manual(&DiscoveryConfig::default()).unwrap();
    assert_eq!(devices.len(), 8);
    assert_eq!(devices[0].id, 0);
    assert_eq!(devices[7].id, 7);
    assert_eq!(devices[0].pci_bus_id, "0000:01:00.0");
    assert_eq!(devices[7].pci_bus_id, "0000:08:00.0");
}

#[test]
fn manual_discovery_hex_bus_ids() {
    let config = DiscoveryConfig { assume_full_mesh: true, num_devices_override: Some(20) };
    let devices = discover_manual(&config).unwrap();
    assert_eq!(devices[9].pci_bus_id, "0000:0a:00.0");
    assert_eq!(devices[19].pci_bus_id, "0000:14:00.0");
}

#[test]
fn test_manual_discovery_custom_count() {
    let config = DiscoveryConfig { num_devices_override: Some(4), ..Default::default() };
    let devices = discover_manual(&config).unwrap();
    assert_eq!(devices.len(), 4);
    assert_eq!(devices[0].nvlink_peers, vec![1, 2, 3]);
}

#[test]
fn test_discover_mesh_full() {
    let config = DiscoveryConfig { num_devices_override: Some(4), assume_full_mesh: true };
    let mesh = discover_mesh(&config).unwrap();
    assert_eq!(mesh.device_count(), 4);
    assert!(mesh.all_pairs_nvlinked());
}

#[test]
fn test_discover_mesh_custom_peers() {
    let config = DiscoveryConfig { num_devices_override: Some(3), assume_full_mesh: false };
    let mesh = discover_mesh(&config).unwrap();
    assert_eq!(mesh.device_count(), 3);
}

#[test]
fn discover_mesh_without_devices_fails() {
    let config = DiscoveryConfig { num_devices_override: Some(0), assume_full_mesh: true };
    assert_eq!(discover_mesh(&config).unwrap_err(), TopologyError::EmptyMesh);
}

#[test]
fn test_discover_devices_without_nvml() {
    let config = DiscoveryConfig { num_devices_override: Some(2), ..Default::default() };
    assert_eq!(discover_devices(&config).unwrap().len(), 2);
}

#[test]
fn test_default_discovery_config() {
    let config = DiscoveryConfig::default();
    assert!(config.assume_full_mesh);
    assert!(config.num_devices_override.is_none());
}

#[test]
fn test_numa_assignment() {
    let config = DiscoveryConfig { num_devices_override: Some(8), ..Default::default() };
    let devices = discover_manual(&config).unwrap();
    assert_eq!(devices[0].numa_node, Some(0));
    assert_eq!(devices[3].numa_node, Some(0));
    assert_eq!(devices[4].numa_node, Some(1));
    assert_eq!(devices[7].numa_node, Some(1));
}

#[test]
fn numa_assignment_for_one_device() {
    let config = DiscoveryConfig { num_devices_override: Some(1), ..Default::default() };
    assert_eq!(discover_manual(&config).unwrap()[0].numa_node, Some(0));
}

#[test]
fn test_collective_op_display() {
    assert_eq!(CollectiveOp::AllReduce.to_string(), "AllReduce");
    assert_eq!(CollectiveOp::Broadcast.to_string(), "Broadcast");
    assert_eq!(CollectiveOp::AllGather.to_string(), "AllGather");
    assert_eq!(CollectiveOp::ReduceScatter.to_string(), "ReduceScatter");
}

#[test]
fn test_collective_op_equality() {
    assert_eq!(CollectiveOp::AllReduce, CollectiveOp::AllReduce);
    assert_ne!(CollectiveOp::AllReduce, CollectiveOp::Broadcast);
}

#[test]
fn test_dummy_communicator() {
    let comm = DummyCommunicator::new(0, 4);
    let data = vec![1u8, 2, 3, 4];
    let result = comm.nearest_neighbor_exchange(data.clone(), 0);
    assert_eq!(result.len(), 4);
    assert_eq!(result[0], data);
    assert_eq!(comm.all_reduce_mesh(data.clone(), &[0, 1, 2, 3]), data);
    assert_eq!(comm.pipeline_stage_sendrecv(data.clone(), 1), data);
    assert_eq!(comm.route_collective(CollectiveOp::AllReduce, data.clone()), data);
}

#[test]
fn test_route_collective_variants() {
    let comm = DummyCommunicator::new(0, 2);
    for op in [CollectiveOp::AllReduce, CollectiveOp::Broadcast, CollectiveOp::AllGather, CollectiveOp::ReduceScatter] {
        assert_eq!(comm.route_collective(op, vec![42u8]), vec![42u8]);
    }
}

#[test]
fn test_dummy_world_size_clamp() {
    let comm = DummyCommunicator::new(0, 2);
    assert_eq!(comm.nearest_neighbor_exchange(vec![1u8], 0).len(), 2);
    let big = DummyCommunicator::new(0, 16);
    assert_eq!(big.nearest_neighbor_exchange(vec![1u8], 0).len(), 4);
}
