//! A host-side bridge to a vector-processing engine that communicates
//! through a fixed-capacity circular buffer.

pub mod error;
pub mod ring;
pub mod normalize;
pub mod native_kernel;
pub mod native_backend;
pub mod sandbox;
pub mod wasm_backend;
pub mod backend;
pub mod bridge;
