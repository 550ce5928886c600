//! Verified core of a WebGPU rendering backend: command recording, execution
//! planning, bind-group caching with dependency tracking, uniform and timing
//! rings, and shadow-buffer dirty tracking.

pub mod align;
pub mod handles;
pub mod command;
pub mod cache;
pub mod execute;
pub mod uniform;
pub mod timing;
pub mod dirty;
pub mod cli;
pub mod pipeline;
pub mod resource;
