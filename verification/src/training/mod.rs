pub mod config;
pub mod runtime;
pub mod step;
