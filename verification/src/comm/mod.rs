pub mod collective;
pub mod mock;
pub mod tcp;
pub mod topology_aware;
