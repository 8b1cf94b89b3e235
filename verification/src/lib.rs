//! Bindings across a flat, byte-buffer function-call boundary.
//!
//! From the interface documents of a module this library derives both halves
//! of a call bridge: the wrappers that a caller in another language uses, and
//! the entry points that the implementation exposes. Between the two stands
//! one named registry of serialization formats, which the lowering engine
//! fills from the types of the exported signatures.
//!
//! - `document`, `types`: the interface documents and their type expressions.
//! - `resolver`: from identifiers and paths to items.
//! - `format`, `registry`: the lowered formats and the registry of containers.
//! - `lowering`, `lower`, `cache`: the lowering engine, its model and its memo.
//! - `exports`, `order`: which callables are exported, ordered by name.
//! - `caller`, `emit`, `definitions`, `comments`: the artifacts of the
//!   caller's side.
//! - `abi`, `annotation`: the callee's side and the rules on annotations.
//! - `wire`, `example`: the codec of the wire format, and a small API with
//!   its entry point.
//! - `laws`, `settled`: what holds of the engine and of a pass, proved.

pub mod abi;
pub mod annotation;
pub mod cache;
pub mod caller;
pub mod comments;
pub mod config;
pub mod definitions;
pub mod document;
pub mod emit;
pub mod error;
pub mod example;
pub mod exports;
pub mod format;
pub mod laws;
pub mod lower;
pub mod lowering;
pub mod order;
pub mod registry;
pub mod resolver;
pub mod settled;
pub mod text;
pub mod traits;
pub mod types;
pub mod wire;
