pub mod blocks;
pub mod config;
pub mod hooks;
pub mod loss_scale;
pub mod quantize;
pub mod scaling;
pub mod shape;
