//! The source container files of one run.
//!
//! A source is usually a read-only memory mapping, so that only the
//! pages actually copied are faulted in; an owned byte buffer serves the
//! same role for small inputs.  A mapping's contents live on disk and
//! can change underneath the process, so nothing is promised about them;
//! an owned buffer's contents are its view.

use vstd::prelude::*;

use crate::codec::{st_lookup, st_names_of, TensorAbs};

verus! {

#[verifier::external_type_specification]
#[verifier::external_body]
/// The read-only memory mapping type of the memmap2 crate.
pub struct ExMmap(memmap2::Mmap);

/// The bytes of one source container file.
pub enum SourceBytes {
    /// A read-only memory mapping of the file.
    Mapped(memmap2::Mmap),
    /// The file's contents, fully buffered.
    Owned(Vec<u8>),
}

/// One source container file.
pub struct LoadedFile {
    /// The file's path, for error reports.
    pub path: String,
    /// Its contents.
    pub bytes: SourceBytes,
}

/// The bytes of an owned source; empty for a mapping, whose contents
/// cannot be pinned down.
pub open spec fn owned_bytes(s: SourceBytes) -> Seq<u8> {
    match s {
        SourceBytes::Mapped(_) => Seq::empty(),
        SourceBytes::Owned(v) => v@,
    }
}

/// Relies on Mmap's Deref to `[u8]`: the mapped bytes.  What they hold
/// depends on the disk, so nothing is promised about them.
#[verifier::external_body]
fn mmap_slice<'a>(m: &'a memmap2::Mmap) -> (r: &'a [u8]) {
    &m[..]
}

/// The bytes of a source.  For an owned source they are its view; for a
/// mapping they are whatever the disk holds right now.
pub fn source_slice<'a>(s: &'a SourceBytes) -> (r: &'a [u8])
    ensures
        s is Owned ==> r@ == owned_bytes(*s),
{
    match s {
        SourceBytes::Mapped(m) => mmap_slice(m),
        SourceBytes::Owned(v) => v.as_slice(),
    }
}

/// Whether `path` names a source whose container header the codec could
/// refuse: for an owned source its bytes really do fail to parse.
pub open spec fn header_parse_witness(files: Seq<LoadedFile>, path: Seq<char>) -> bool {
    exists|f: int|
        0 <= f < files.len() && (#[trigger] files[f]).path@ == path && match files[f].bytes {
            SourceBytes::Mapped(_) => true,
            SourceBytes::Owned(v) => st_names_of(v@) is None,
        }
}

/// Whether a tensor is what source `f` stores under the tensor's name.
/// For a mapped source nothing can be said, since the disk may change;
/// for an owned source the claim is exact.
pub open spec fn tensor_from_file(files: Seq<LoadedFile>, t: TensorAbs, f: int) -> bool {
    0 <= f < files.len() && match files[f].bytes {
        SourceBytes::Mapped(_) => true,
        SourceBytes::Owned(v) => st_lookup(v@, t.name) == Some(t),
    }
}

} // verus!
