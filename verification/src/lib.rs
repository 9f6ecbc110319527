//! Splits a model checkpoint stored in safetensors container files into
//! smaller chunk files plus a manifest describing how to reassemble them.
//!
//! Tensors are classified by name into base tensors and per-layer tensors,
//! layers are grouped into fixed-size windows, each window's tensors are
//! extracted and re-serialized into a new container file, and a manifest
//! records every chunk with its size and content digest.

pub mod classify;
pub mod clock;
pub mod codec;
pub mod digest;
pub mod discover;
pub mod dtype;
pub mod error;
pub mod io;
pub mod manifest;
pub mod metrics;
pub mod plan;
pub mod shard;
pub mod rules;
pub mod source;
pub mod text;

pub use manifest::{ManifestChunk, ModelManifest};
