//! The persisted description of a split model: one record per chunk file,
//! plus model-wide fields, with the validity rules a consumer may rely on.

use vstd::prelude::*;

verus! {

/// Metadata for a single chunk file.
#[derive(Debug, Clone)]
pub struct ManifestChunk {
    /// Chunk identifier, `"base"` or `"layers_{start}-{end}"`.
    pub id: String,
    /// Output file name, e.g. `"base.safetensors"`.
    pub filename: String,
    /// First layer index covered (0 for the base chunk).
    pub layer_start: u32,
    /// Last layer index covered, inclusive (0 for the base chunk).
    pub layer_end: u32,
    /// Size of the chunk file in bytes.
    pub bytes: u64,
    /// Lower-case hex SHA-256 digest of the chunk file's contents; the
    /// persisted key names the algorithm.
    pub sha256: String,
    /// Remote download address; left empty here, filled by an upload step.
    pub url: String,
}

/// The manifest for a whole split model.
#[derive(Debug, Clone)]
pub struct ModelManifest {
    /// Model identifier, e.g. `"Qwen/Qwen2.5-3B"`.
    pub model_id: String,
    /// Manifest version label.
    pub version: String,
    /// Declared weight data type label, e.g. `"bf16"` or `"auto"`.
    pub dtype: String,
    /// Minimum number of leading layers needed before the model can run.
    pub min_runnable_depth: u32,
    /// The chunks, in the order they were produced.
    pub chunks: Vec<ManifestChunk>,
}

impl ModelManifest {
    /// A manifest is valid exactly when it lists at least one chunk and
    /// declares a positive minimum runnable depth.
    pub open spec fn is_valid(&self) -> bool {
        &&& self.chunks@.len() > 0
        &&& self.min_runnable_depth > 0
    }

    /// Checks the manifest's invariants, reporting the first violation.
    pub fn validate(&self) -> (r: Result<(), String>)
        ensures
            r is Ok <==> self.is_valid(),
            self.chunks@.len() == 0 ==> (r matches Err(m) && m@ == "chunks must not be empty"@),
            self.chunks@.len() > 0 && self.min_runnable_depth == 0 ==> (r matches Err(m)
                && m@ == "min_runnable_depth must be > 0"@),
    {
        if self.chunks.len() == 0 {
            return Err("chunks must not be empty".to_owned());
        }

        if self.min_runnable_depth == 0 {
            return Err("min_runnable_depth must be > 0".to_owned());
        }

        Ok(())
    }
}

} // verus!
