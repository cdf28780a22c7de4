//! Verified core of a mesh-torus hybrid distributed training framework:
//! torus topology arithmetic, intra-node NVLink meshes, topology-aware
//! communication, pipeline schedules and the framing of the bytes that
//! pipeline stages exchange.

pub mod codec;
pub mod comm;
pub mod model_split;
pub mod pipeline;
pub mod precision;
pub mod topology;
pub mod training;
