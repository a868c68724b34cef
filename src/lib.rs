//! Generates wasm-bindgen binding declarations for the classes of a
//! TypeScript module tree: resolves the modules reachable from an entry
//! file, maps each class to an opaque type and its constructor signatures,
//! renders them, and places each module's bindings under an output root.
use vstd::prelude::*;

pub mod config;
pub mod laws;
pub mod mapper;
pub mod order;
pub mod paths;
pub mod pipeline;
pub mod render;
pub mod resolver;
pub mod types;

verus! {

} // verus!
