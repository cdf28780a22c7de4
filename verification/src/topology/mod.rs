pub mod coordinator;
pub mod device;
pub mod discovery;
pub mod error;
pub mod hybrid;
pub mod mesh;
pub mod naming;
pub mod torus;
