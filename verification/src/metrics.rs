//! Performance counters of one run.
//!
//! The counters are observational: the run's behaviour never depends on
//! them.  The library defines their shapes and the accumulation step;
//! rendering them as text, which involves an average in floating point,
//! is left to the driver around the library.

use vstd::prelude::*;

use crate::io::WriteTimings;

verus! {

/// The per-chunk performance record.
pub struct ChunkPerf {
    /// The chunk's identifier.
    pub id: String,
    /// First layer index covered.
    pub layer_start: u32,
    /// Last layer index covered, inclusive.
    pub layer_end: u32,
    /// How many tensors the chunk holds.
    pub tensor_count: usize,
    /// Payload bytes read from the sources for this chunk.
    pub bytes_read: usize,
    /// Bytes written to the chunk file.
    pub bytes_written: u64,
    /// Header parsing time of the chunk's load.
    pub load_deserialize_ms: u128,
    /// Payload copy time of the chunk's load.
    pub load_copy_ms: u128,
    /// Wall time of the chunk's load.
    pub load_total_ms: u128,
    /// Serialization time of the chunk's write.
    pub serialize_ms: u128,
    /// Digest time of the chunk's write.
    pub hash_ms: u128,
    /// Disk time of the chunk's write.
    pub write_ms: u128,
    /// Wall time of the digest and disk work together.
    pub write_parallel_ms: u128,
    /// Wall time of the whole write.
    pub write_total_ms: u128,
    /// Wall time of the whole chunk.
    pub chunk_total_ms: u128,
}

/// Adds one write's timings into the run's totals.
pub fn add_write_timings(
    timings: &WriteTimings,
    serialize_ms_total: &mut u128,
    hash_ms_total: &mut u128,
    write_ms_total: &mut u128,
    write_parallel_ms_total: &mut u128,
    write_total_ms_total: &mut u128,
)
    requires
        old(serialize_ms_total) + timings.serialize_ms <= u128::MAX,
        old(hash_ms_total) + timings.hash_ms <= u128::MAX,
        old(write_ms_total) + timings.write_ms <= u128::MAX,
        old(write_parallel_ms_total) + timings.parallel_ms <= u128::MAX,
        old(write_total_ms_total) + timings.total_ms <= u128::MAX,
    ensures
        *final(serialize_ms_total) == *old(serialize_ms_total) + timings.serialize_ms,
        *final(hash_ms_total) == *old(hash_ms_total) + timings.hash_ms,
        *final(write_ms_total) == *old(write_ms_total) + timings.write_ms,
        *final(write_parallel_ms_total) == *old(write_parallel_ms_total) + timings.parallel_ms,
        *final(write_total_ms_total) == *old(write_total_ms_total) + timings.total_ms,
{
    *serialize_ms_total = *serialize_ms_total + timings.serialize_ms;
    *hash_ms_total = *hash_ms_total + timings.hash_ms;
    *write_ms_total = *write_ms_total + timings.write_ms;
    *write_parallel_ms_total = *write_parallel_ms_total + timings.parallel_ms;
    *write_total_ms_total = *write_total_ms_total + timings.total_ms;
}

} // verus!
