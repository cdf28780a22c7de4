pub mod checkpoint;
pub mod communicator;
pub mod executor;
pub mod placement;
pub mod schedule;
pub mod stage;
