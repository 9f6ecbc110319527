//! Loading tensors out of the source files, and serializing a chunk's
//! tensors into a new container buffer.
//!
//! The loader groups the requested locations by source file and walks
//! the files in ascending index order, so each touched file's header is
//! parsed exactly once per call; every requested tensor is copied into
//! an owned buffer.  The serializer checks each tensor against the
//! codec's size rules, and the chunk against the one-name-one-tensor
//! rule, before handing the list over.

use vstd::prelude::*;

use crate::classify::TensorLocation;
use crate::clock::{clock_now, elapsed_millis};
use crate::codec::{
    codec_extract, codec_serialize, distinct_names, names_set_of, spec_num_elements,
    spec_total_data, st_accepts, st_lookup, st_names_of, st_serialized, tensor_well_formed,
    tensors_abs, CodecFailure, OwnedTensor, TensorAbs,
};
use crate::digest::spec_digest_hex;
use crate::dtype::dtype_bits;
use crate::error::ShardError;
use crate::plan::LocAbs;
use crate::source::{
    header_parse_witness, owned_bytes, source_slice, tensor_from_file, LoadedFile, SourceBytes,
};

verus! {

/// How long the phases of one load took.
#[derive(Debug)]
pub struct LoadTimings {
    /// Time spent parsing container headers and copying tensor payloads
    /// out of the sources; the codec does both in one call here.
    pub deserialize_ms: u128,
    /// Payload copy time when measured apart from header parsing; folded
    /// into `deserialize_ms` here, so always zero.
    pub copy_ms: u128,
    /// Wall time of the whole load.
    pub total_ms: u128,
}

/// How long the phases of one chunk write took.
#[derive(Debug)]
pub struct WriteTimings {
    /// Time spent serializing the tensors into the container buffer.
    pub serialize_ms: u128,
    /// Time spent computing the content digest.
    pub hash_ms: u128,
    /// Time spent writing the buffer to disk.
    pub write_ms: u128,
    /// Wall time of the digest and disk work together.
    pub parallel_ms: u128,
    /// Wall time of the whole write.
    pub total_ms: u128,
}

/// What one load produced.
#[derive(Debug)]
pub struct LoadResult {
    /// The extracted tensors, grouped by source file in ascending index
    /// order, in request order within each file.
    pub tensors: Vec<OwnedTensor>,
    /// Total payload bytes copied, saturating at the machine limit.
    pub bytes_read: usize,
    /// The load's timing breakdown.
    pub timings: LoadTimings,
}

/// The locations among the first `j` that point into file `f`, in order.
pub open spec fn file_locs_upto(locs: Seq<TensorLocation>, f: int, j: int) -> Seq<LocAbs>
    decreases j,
{
    if j <= 0 {
        Seq::empty()
    } else {
        file_locs_upto(locs, f, j - 1) + if locs[j - 1].file_idx == f {
            seq![locs[j - 1]@]
        } else {
            Seq::empty()
        }
    }
}

/// The locations that point into file `f`, in order.
pub open spec fn file_locs(locs: Seq<TensorLocation>, f: int) -> Seq<LocAbs> {
    file_locs_upto(locs, f, locs.len() as int)
}

/// The names of the locations that point into file `f`, in order.
pub open spec fn file_names(locs: Seq<TensorLocation>, f: int) -> Seq<Seq<char>> {
    file_locs(locs, f).map_values(|v: LocAbs| v.name)
}

/// All requested locations, grouped by source file in ascending index
/// order.
pub open spec fn grouped_locs(locs: Seq<TensorLocation>, nfiles: int) -> Seq<LocAbs>
    decreases nfiles,
{
    if nfiles <= 0 {
        Seq::empty()
    } else {
        grouped_locs(locs, nfiles - 1) + file_locs(locs, nfiles - 1)
    }
}

/// Every location grouped under file `f` points into file `f` and comes
/// from one of the requested locations.
proof fn lemma_file_locs_elems(locs: Seq<TensorLocation>, f: int, j: int)
    requires
        0 <= j <= locs.len(),
    ensures
        forall|i: int|
            0 <= i < file_locs_upto(locs, f, j).len() ==> (#[trigger] file_locs_upto(
                locs,
                f,
                j,
            )[i]).file_idx == f && (exists|e: int|
                0 <= e < j && (#[trigger] locs[e]).file_idx == f && locs[e]@ == file_locs_upto(
                    locs,
                    f,
                    j,
                )[i]),
    decreases j,
{
    if j > 0 {
        lemma_file_locs_elems(locs, f, j - 1);
        let prev = file_locs_upto(locs, f, j - 1);
        let cur = file_locs_upto(locs, f, j);
        assert forall|i: int| 0 <= i < cur.len() implies (#[trigger] cur[i]).file_idx == f && (
        exists|e: int|
            0 <= e < j && (#[trigger] locs[e]).file_idx == f && locs[e]@ == cur[i]) by {
            if i < prev.len() {
                assert(cur[i] == prev[i]);
                let e = choose|e: int|
                    0 <= e < j - 1 && (#[trigger] locs[e]).file_idx == f && locs[e]@ == prev[i];
                assert(0 <= e < j && locs[e].file_idx == f && locs[e]@ == cur[i]);
            } else {
                assert(locs[j - 1].file_idx == f && cur[i] == locs[j - 1]@);
                assert(0 <= j - 1 < j && locs[j - 1].file_idx == f && locs[j - 1]@ == cur[i]);
            }
        }
    }
}

/// Addition that stops at the machine limit.
pub open spec fn sat_add(a: int, b: int) -> int {
    if a + b <= usize::MAX {
        a + b
    } else {
        usize::MAX as int
    }
}

/// The byte counter a load reports: the payload sizes summed, saturating
/// at the machine limit.
pub open spec fn spec_bytes_read(ts: Seq<TensorAbs>) -> int
    decreases ts.len(),
{
    if ts.len() == 0 {
        0
    } else {
        sat_add(spec_bytes_read(ts.drop_last()), ts.last().data.len() as int)
    }
}

/// When the total payload fits the machine, the saturating counter is
/// the exact total.
pub proof fn lemma_bytes_read_exact(ts: Seq<TensorAbs>)
    ensures
        spec_total_data(ts) <= usize::MAX ==> spec_bytes_read(ts) == spec_total_data(ts),
        spec_bytes_read(ts) >= 0,
        spec_total_data(ts) >= 0,
    decreases ts.len(),
{
    if ts.len() > 0 {
        lemma_bytes_read_exact(ts.drop_last());
    }
}

/// A prefix never holds more payload than the whole list.
proof fn lemma_total_data_prefix(ts: Seq<TensorAbs>, j: int)
    requires
        0 <= j <= ts.len(),
    ensures
        spec_total_data(ts.subrange(0, j)) <= spec_total_data(ts),
    decreases ts.len() - j,
{
    if j < ts.len() {
        lemma_total_data_prefix(ts, j + 1);
        assert(ts.subrange(0, j + 1).drop_last() =~= ts.subrange(0, j));
        assert(ts.subrange(0, j + 1).last() == ts[j]);
    } else {
        assert(ts.subrange(0, j) =~= ts);
    }
}

/// Whether every source is an owned buffer that parses and holds every
/// requested tensor.  On such inputs nothing is left to the disk, and
/// loading is owed to succeed.
pub open spec fn sources_loadable(files: Seq<LoadedFile>, locs: Seq<TensorLocation>) -> bool {
    &&& forall|f: int| 0 <= f < files.len() ==> (#[trigger] files[f]).bytes is Owned
    &&& forall|f: int|
        0 <= f < files.len() ==> st_names_of(owned_bytes((#[trigger] files[f]).bytes)) is Some
    &&& forall|e: int|
        0 <= e < locs.len() ==> st_lookup(
            owned_bytes(files[(#[trigger] locs[e]).file_idx as int].bytes),
            locs[e].name@,
        ) is Some
}

/// Whether `name` and `path` identify a requested location whose file
/// could lack the tensor: for an owned source the name really is absent.
pub open spec fn missing_tensor_witness(
    files: Seq<LoadedFile>,
    locs: Seq<TensorLocation>,
    name: Seq<char>,
    path: Seq<char>,
) -> bool {
    exists|e: int|
        0 <= e < locs.len() && (#[trigger] locs[e]).name@ == name && locs[e].file_idx
            < files.len() && files[locs[e].file_idx as int].path@ == path && match files[locs[e].file_idx as int].bytes {
            SourceBytes::Mapped(_) => true,
            SourceBytes::Owned(v) => st_lookup(v@, name) is None,
        }
}

/// The names of the locations that point into file `f`, as owned strings.
fn collect_file_names(locs: &Vec<TensorLocation>, f: usize) -> (r: Vec<String>)
    ensures
        r@.map_values(|s: String| s@) == file_names(locs@, f as int),
{
    let mut r: Vec<String> = Vec::new();
    let mut j: usize = 0;
    proof {
        assert(r@.map_values(|s: String| s@) =~= file_locs_upto(locs@, f as int, 0).map_values(
            |v: LocAbs| v.name,
        ));
    }
    while j < locs.len()
        invariant
            0 <= j <= locs@.len(),
            r@.map_values(|s: String| s@) == file_locs_upto(locs@, f as int, j as int).map_values(
                |v: LocAbs| v.name,
            ),
        decreases locs@.len() - j,
    {
        let ghost prev = r@;
        if locs[j].file_idx == f {
            r.push(locs[j].name.clone());
            proof {
                assert(file_locs_upto(locs@, f as int, j + 1) =~= file_locs_upto(
                    locs@,
                    f as int,
                    j as int,
                ).push(locs@[j as int]@));
                assert(r@.map_values(|s: String| s@) =~= prev.map_values(|s: String| s@).push(
                    locs@[j as int].name@,
                ));
                assert(file_locs_upto(locs@, f as int, j + 1).map_values(|v: LocAbs| v.name)
                    =~= file_locs_upto(locs@, f as int, j as int).map_values(
                    |v: LocAbs| v.name,
                ).push(locs@[j as int]@.name));
            }
        } else {
            proof {
                assert(file_locs_upto(locs@, f as int, j + 1) =~= file_locs_upto(
                    locs@,
                    f as int,
                    j as int,
                ));
            }
        }
        j += 1;
    }
    r
}

/// Loads the requested tensors out of the source files.
///
/// Locations are grouped by source file; files are walked in ascending
/// index order, each touched file's header parsed once; a file no
/// location touches is not opened.  Each returned tensor carries the
/// requested name and is, for an owned source, exactly what that
/// location's own file stores under it.  A header that fails to parse,
/// or a requested name the file does not declare, is a fatal error
/// naming the file (and the tensor); when every source is an owned
/// buffer that parses and holds every requested tensor, the load is owed
/// to succeed.
pub fn load_tensors(loaded_files: &Vec<LoadedFile>, locations: &Vec<TensorLocation>) -> (r:
    Result<LoadResult, ShardError>)
    requires
        forall|i: int|
            0 <= i < locations@.len() ==> (#[trigger] locations@[i]).file_idx
                < loaded_files@.len(),
    ensures
        r matches Ok(lr) ==> lr.tensors@.len() == grouped_locs(
            locations@,
            loaded_files@.len() as int,
        ).len(),
        r matches Ok(lr) ==> (forall|i: int|
            0 <= i < lr.tensors@.len() ==> (#[trigger] tensors_abs(lr.tensors@)[i]).name
                == grouped_locs(locations@, loaded_files@.len() as int)[i].name),
        r matches Ok(lr) ==> (forall|i: int|
            0 <= i < lr.tensors@.len() ==> tensor_from_file(
                loaded_files@,
                #[trigger] tensors_abs(lr.tensors@)[i],
                grouped_locs(locations@, loaded_files@.len() as int)[i].file_idx,
            )),
        r matches Ok(lr) ==> (forall|i: int|
            0 <= i < lr.tensors@.len() ==> tensor_well_formed(
                #[trigger] tensors_abs(lr.tensors@)[i],
            )),
        r matches Ok(lr) ==> lr.bytes_read == spec_bytes_read(tensors_abs(lr.tensors@)),
        r matches Ok(lr) ==> (spec_total_data(tensors_abs(lr.tensors@)) <= usize::MAX
            ==> lr.bytes_read == spec_total_data(tensors_abs(lr.tensors@))),
        r matches Err(e) ==> e is HeaderParse || e is TensorNotFound,
        r matches Err(e) ==> (e matches ShardError::HeaderParse { path }
            ==> header_parse_witness(loaded_files@, path@)),
        r matches Err(e) ==> (e matches ShardError::TensorNotFound { name, path }
            ==> missing_tensor_witness(loaded_files@, locations@, name@, path@)),
        sources_loadable(loaded_files@, locations@) ==> r is Ok,
{
    let t_start = clock_now();
    let mut tensors: Vec<OwnedTensor> = Vec::new();
    let mut bytes_read: usize = 0;
    let mut deserialize_ms: u128 = 0;

    let mut f: usize = 0;
    proof {
        assert(tensors_abs(tensors@) =~= Seq::<TensorAbs>::empty());
        assert(grouped_locs(locations@, 0) =~= Seq::<LocAbs>::empty());
    }
    while f < loaded_files.len()
        invariant
            0 <= f <= loaded_files@.len(),
            forall|i: int|
                0 <= i < locations@.len() ==> (#[trigger] locations@[i]).file_idx
                    < loaded_files@.len(),
            tensors@.len() == grouped_locs(locations@, f as int).len(),
            forall|i: int|
                0 <= i < tensors@.len() ==> (#[trigger] tensors_abs(tensors@)[i]).name
                    == grouped_locs(locations@, f as int)[i].name,
            forall|i: int|
                0 <= i < tensors@.len() ==> tensor_from_file(
                    loaded_files@,
                    #[trigger] tensors_abs(tensors@)[i],
                    grouped_locs(locations@, f as int)[i].file_idx,
                ),
            forall|i: int|
                0 <= i < tensors@.len() ==> tensor_well_formed(
                    #[trigger] tensors_abs(tensors@)[i],
                ),
            bytes_read == spec_bytes_read(tensors_abs(tensors@)),
        decreases loaded_files@.len() - f,
    {
        let ghost flocs = file_locs(locations@, f as int);
        proof {
            lemma_file_locs_elems(locations@, f as int, locations@.len() as int);
        }
        let names = collect_file_names(locations, f);
        if names.len() > 0 {
            let file = &loaded_files[f];
            let data = source_slice(&file.bytes);
            let t_parse = clock_now();
            let mut extracted = match codec_extract(data, &names) {
                Ok(v) => v,
                Err(CodecFailure::Header) => {
                    proof {
                        assert(loaded_files@[f as int].path@ == file.path@);
                        if sources_loadable(loaded_files@, locations@) {
                            // Every source is owned and parses, so the
                            // codec cannot have refused this header.
                            assert(loaded_files@[f as int].bytes is Owned);
                            assert(data@ == owned_bytes(loaded_files@[f as int].bytes));
                            assert(false);
                        }
                        assert(header_parse_witness(loaded_files@, file.path@));
                    }
                    return Err(ShardError::HeaderParse { path: file.path.clone() });
                },
                Err(CodecFailure::Missing(i)) => {
                    proof {
                        // The missing name is one of the requested
                        // locations for this file.
                        assert(names@.map_values(|s: String| s@).len() == names@.len());
                        assert(flocs.map_values(|v: LocAbs| v.name).len() == flocs.len());
                        assert(flocs.len() == names@.len());
                        assert(names@[i as int]@ == names@.map_values(|s: String| s@)[i as int]);
                        assert(names@.map_values(|s: String| s@)[i as int] == flocs.map_values(
                            |v: LocAbs| v.name,
                        )[i as int]);
                        assert(names@[i as int]@ == flocs[i as int].name);
                        let e = choose|e: int|
                            0 <= e < locations@.len() && (#[trigger] locations@[e]).file_idx
                                == f as int && locations@[e]@ == flocs[i as int];
                        assert(locations@[e].name@ == names@[i as int]@);
                        if sources_loadable(loaded_files@, locations@) {
                            assert(loaded_files@[f as int].bytes is Owned);
                            assert(data@ == owned_bytes(loaded_files@[f as int].bytes));
                            assert(st_lookup(
                                owned_bytes(loaded_files@[f as int].bytes),
                                locations@[e].name@,
                            ) is Some);
                            assert(false);
                        }
                        assert(0 <= e < locations@.len() && locations@[e].name@
                            == names@[i as int]@ && locations@[e].file_idx
                            < loaded_files@.len() && loaded_files@[locations@[e].file_idx as int].path@
                            == file.path@);
                        assert(missing_tensor_witness(
                            loaded_files@,
                            locations@,
                            names@[i as int]@,
                            file.path@,
                        ));
                    }
                    let name = names[i].clone();
                    return Err(ShardError::TensorNotFound { name, path: file.path.clone() });
                },
            };
            let parse_elapsed = elapsed_millis(&t_parse);
            if parse_elapsed <= u128::MAX - deserialize_ms {
                deserialize_ms = deserialize_ms + parse_elapsed;
            } else {
                deserialize_ms = u128::MAX;
            }

            // Every tensor the codec handed back is well-formed and is
            // what this file stores under the requested name.
            let ghost before = tensors_abs(tensors@);
            let ghost ext_abs = tensors_abs(extracted@);
            proof {
                assert(names@.map_values(|s: String| s@).len() == names@.len());
                assert(flocs.map_values(|v: LocAbs| v.name).len() == flocs.len());
                assert(flocs.len() == names@.len());
                assert forall|i: int| 0 <= i < ext_abs.len() implies tensor_from_file(
                    loaded_files@,
                    #[trigger] ext_abs[i],
                    f as int,
                ) && ext_abs[i].name == flocs[i].name && tensor_well_formed(ext_abs[i]) by {
                    assert(ext_abs[i] == extracted@[i]@);
                    let t = extracted@[i]@;
                    assert(st_lookup(data@, names@[i]@) == Some(t));
                    assert(t.name == names@[i]@);
                    assert(names@[i]@ == names@.map_values(|s: String| s@)[i]);
                    assert(names@.map_values(|s: String| s@)[i] == flocs.map_values(
                        |v: LocAbs| v.name,
                    )[i]);
                    assert(names@[i]@ == flocs[i].name);
                }
            }

            // Count the payload bytes, saturating at the machine limit.
            let mut gi: usize = 0;
            proof {
                assert(before + ext_abs.subrange(0, 0) =~= before);
            }
            while gi < extracted.len()
                invariant
                    0 <= gi <= extracted@.len(),
                    ext_abs == tensors_abs(extracted@),
                    before == tensors_abs(tensors@),
                    bytes_read == spec_bytes_read(before + ext_abs.subrange(0, gi as int)),
                decreases extracted@.len() - gi,
            {
                let len_i = extracted[gi].data.len();
                proof {
                    let c = before + ext_abs.subrange(0, gi + 1);
                    assert(c.drop_last() =~= before + ext_abs.subrange(0, gi as int));
                    assert(c.last() == ext_abs[gi as int]);
                    assert(ext_abs[gi as int].data.len() == len_i);
                }
                if len_i <= usize::MAX - bytes_read {
                    bytes_read = bytes_read + len_i;
                } else {
                    bytes_read = usize::MAX;
                }
                gi += 1;
            }
            proof {
                assert(ext_abs.subrange(0, extracted@.len() as int) =~= ext_abs);
            }

            let ghost old_tensors = tensors@;
            tensors.append(&mut extracted);
            proof {
                assert(tensors_abs(tensors@) =~= before + ext_abs);
                assert(grouped_locs(locations@, f + 1) == grouped_locs(locations@, f as int)
                    + flocs);
                assert(ext_abs.len() == names@.len());
                assert(flocs.len() == names@.len());
                assert forall|i: int| 0 <= i < tensors@.len() implies {
                    &&& (#[trigger] tensors_abs(tensors@)[i]).name == grouped_locs(
                        locations@,
                        f + 1,
                    )[i].name
                    &&& tensor_from_file(
                        loaded_files@,
                        tensors_abs(tensors@)[i],
                        grouped_locs(locations@, f + 1)[i].file_idx,
                    )
                    &&& tensor_well_formed(tensors_abs(tensors@)[i])
                } by {
                    if i < old_tensors.len() {
                        assert(tensors_abs(tensors@)[i] == before[i]);
                        assert(grouped_locs(locations@, f + 1)[i] == grouped_locs(
                            locations@,
                            f as int,
                        )[i]);
                    } else {
                        let k = i - old_tensors.len();
                        assert(tensors_abs(tensors@)[i] == ext_abs[k]);
                        assert(grouped_locs(locations@, f + 1)[i] == flocs[k]);
                        assert(flocs[k].file_idx == f as int);
                    }
                }
            }
        } else {
            proof {
                assert(flocs.len() == 0) by {
                    assert(file_names(locations@, f as int).len() == flocs.len());
                }
                assert(flocs =~= Seq::<LocAbs>::empty());
                assert(grouped_locs(locations@, f + 1) =~= grouped_locs(
                    locations@,
                    f as int,
                ));
            }
        }
        f += 1;
    }
    let total_ms = elapsed_millis(&t_start);
    proof {
        lemma_bytes_read_exact(tensors_abs(tensors@));
    }
    Ok(
        LoadResult {
            tensors,
            bytes_read,
            timings: LoadTimings { deserialize_ms, copy_ms: 0, total_ms },
        },
    )
}

/// Law: writing the same tensors twice — same names, element types,
/// shapes and bytes — produces the same container bytes, and therefore
/// the same content digest.
pub proof fn lemma_digest_deterministic(a: Seq<TensorAbs>, b: Seq<TensorAbs>)
    requires
        a == b,
    ensures
        st_serialized(a) == st_serialized(b),
        spec_digest_hex(st_serialized(a)) == spec_digest_hex(st_serialized(b)),
{
}

/// Checks one tensor against the codec's size rules.
fn check_tensor(t: &OwnedTensor) -> (r: bool)
    ensures
        r == tensor_well_formed(t@),
{
    let bits = match dtype_bits(t.dtype.as_str()) {
        Some(b) => b,
        None => {
            return false;
        },
    };
    let mut acc: u128 = 1;
    let mut i: usize = 0;
    proof {
        assert(t.shape@.subrange(0, 0) =~= Seq::<usize>::empty());
    }
    while i < t.shape.len()
        invariant
            0 <= i <= t.shape@.len(),
            acc as int == spec_num_elements(t.shape@.subrange(0, i as int)),
            acc <= usize::MAX as u128,
            forall|j: int|
                0 <= j <= i ==> spec_num_elements(#[trigger] t.shape@.subrange(0, j))
                    <= usize::MAX,
        decreases t.shape@.len() - i,
    {
        let d = t.shape[i];
        proof {
            vstd::arithmetic::mul::lemma_mul_upper_bound(
                acc as int,
                usize::MAX as int,
                d as int,
                usize::MAX as int,
            );
            assert(t.shape@.subrange(0, i + 1).drop_last() =~= t.shape@.subrange(0, i as int));
            assert(t.shape@.subrange(0, i + 1).last() == t.shape@[i as int]);
        }
        acc = acc * (d as u128);
        if acc > usize::MAX as u128 {
            // This partial product no longer fits the machine, so the
            // codec's own size computation would not either.
            return false;
        }
        i += 1;
    }
    proof {
        assert(t.shape@.subrange(0, t.shape@.len() as int) =~= t.shape@);
        vstd::arithmetic::mul::lemma_mul_upper_bound(
            acc as int,
            usize::MAX as int,
            bits as int,
            64,
        );
    }
    let nbits = acc * (bits as u128);
    if nbits > usize::MAX as u128 {
        return false;
    }
    if nbits % 8 != 0 {
        return false;
    }
    (t.data.len() as u128) * 8 == nbits
}

/// Serializes a chunk's tensors into one container byte buffer.
///
/// The outcome is exact: a tensor that breaks the codec's size rules is
/// reported by name; then a name carried twice is reported; then a total
/// payload beyond the machine is a serialization failure; and otherwise
/// the call succeeds exactly when the codec accepts the list, producing
/// the codec's bytes for it.  On success the bytes depend only on the
/// multiset of tensors, and parsing them back yields exactly the given
/// names and tensors.
pub fn serialize_tensors(tensors: &Vec<OwnedTensor>) -> (r: Result<Vec<u8>, ShardError>)
    ensures
        r matches Ok(v) ==> v@ == st_serialized(tensors_abs(tensors@)),
        r matches Ok(v) ==> (forall|ts2: Seq<TensorAbs>|
            ts2.to_multiset() == tensors_abs(tensors@).to_multiset() ==> v@ == st_serialized(
                ts2,
            )),
        r matches Ok(v) ==> st_names_of(v@) == Some(names_set_of(tensors_abs(tensors@))),
        r matches Ok(v) ==> (forall|i: int|
            0 <= i < tensors@.len() ==> st_lookup(
                v@,
                (#[trigger] tensors_abs(tensors@)[i]).name,
            ) == Some(tensors_abs(tensors@)[i])),
        r matches Err(e) ==> e is InvalidTensor || e is DuplicateTensorName
            || e is SerializeFailed,
        r matches Err(e) ==> (e is InvalidTensor ==> exists|i: int|
            0 <= i < tensors@.len() && !tensor_well_formed(
                #[trigger] tensors_abs(tensors@)[i],
            )),
        r matches Err(e) ==> (e is DuplicateTensorName ==> !distinct_names(
            tensors_abs(tensors@),
        )),
        r matches Err(e) ==> (e is SerializeFailed ==> spec_total_data(tensors_abs(tensors@))
            > usize::MAX || !st_accepts(tensors_abs(tensors@))),
        (exists|i: int|
            0 <= i < tensors@.len() && !tensor_well_formed(
                #[trigger] tensors_abs(tensors@)[i],
            )) ==> (r matches Err(e) && e is InvalidTensor),
        (forall|i: int|
            0 <= i < tensors@.len() ==> tensor_well_formed(#[trigger] tensors_abs(tensors@)[i]))
            && !distinct_names(tensors_abs(tensors@)) ==> (r matches Err(e)
            && e is DuplicateTensorName),
        (forall|i: int|
            0 <= i < tensors@.len() ==> tensor_well_formed(#[trigger] tensors_abs(tensors@)[i]))
            && distinct_names(tensors_abs(tensors@)) && spec_total_data(tensors_abs(tensors@))
            > usize::MAX ==> (r matches Err(e) && e is SerializeFailed),
        (forall|i: int|
            0 <= i < tensors@.len() ==> tensor_well_formed(#[trigger] tensors_abs(tensors@)[i]))
            && distinct_names(tensors_abs(tensors@)) && spec_total_data(tensors_abs(tensors@))
            <= usize::MAX ==> (r is Ok <==> st_accepts(tensors_abs(tensors@))),
{
    let ghost all_abs = tensors_abs(tensors@);
    let mut i: usize = 0;
    while i < tensors.len()
        invariant
            0 <= i <= tensors@.len(),
            all_abs == tensors_abs(tensors@),
            forall|j: int|
                0 <= j < i ==> tensor_well_formed(#[trigger] tensors_abs(tensors@)[j]),
        decreases tensors@.len() - i,
    {
        if !check_tensor(&tensors[i]) {
            proof {
                assert(!tensor_well_formed(tensors_abs(tensors@)[i as int]));
            }
            return Err(ShardError::InvalidTensor { name: tensors[i].name.clone() });
        }
        proof {
            assert(tensor_well_formed(tensors_abs(tensors@)[i as int]));
        }
        i += 1;
    }

    // The codec indexes the chunk's header by name; a repeated name can
    // not be written.
    let mut a: usize = 0;
    while a < tensors.len()
        invariant
            0 <= a <= tensors@.len(),
            all_abs == tensors_abs(tensors@),
            forall|j: int|
                0 <= j < tensors@.len() ==> tensor_well_formed(
                    #[trigger] tensors_abs(tensors@)[j],
                ),
            forall|x: int, y: int|
                0 <= x < y < a ==> (#[trigger] all_abs[x]).name != (#[trigger] all_abs[y]).name,
        decreases tensors@.len() - a,
    {
        let mut b: usize = 0;
        while b < a
            invariant
                0 <= b <= a < tensors@.len(),
                all_abs == tensors_abs(tensors@),
                forall|j: int|
                    0 <= j < tensors@.len() ==> tensor_well_formed(
                        #[trigger] tensors_abs(tensors@)[j],
                    ),
                forall|x: int, y: int|
                    0 <= x < y < a ==> (#[trigger] all_abs[x]).name != (
                    #[trigger] all_abs[y]).name,
                forall|x: int| 0 <= x < b ==> (#[trigger] all_abs[x]).name != all_abs[a as int].name,
            decreases a - b,
        {
            if crate::text::str_eq(tensors[b].name.as_str(), tensors[a].name.as_str()) {
                proof {
                    assert(all_abs[b as int].name == all_abs[a as int].name);
                    assert(!distinct_names(all_abs));
                }
                return Err(ShardError::DuplicateTensorName { name: tensors[a].name.clone() });
            }
            proof {
                assert(all_abs[b as int].name == tensors@[b as int]@.name);
                assert(all_abs[a as int].name == tensors@[a as int]@.name);
            }
            b += 1;
        }
        a += 1;
    }
    proof {
        assert(distinct_names(all_abs));
    }

    // The codec sums the payload sizes; make sure that sum fits the
    // machine before handing the tensors over.
    let mut total: usize = 0;
    let mut j: usize = 0;
    proof {
        assert(all_abs.subrange(0, 0) =~= Seq::<TensorAbs>::empty());
    }
    while j < tensors.len()
        invariant
            0 <= j <= tensors@.len(),
            all_abs == tensors_abs(tensors@),
            total as int == spec_total_data(all_abs.subrange(0, j as int)),
            forall|i: int|
                0 <= i < tensors@.len() ==> tensor_well_formed(
                    #[trigger] tensors_abs(tensors@)[i],
                ),
            distinct_names(all_abs),
        decreases tensors@.len() - j,
    {
        proof {
            assert(all_abs.subrange(0, j + 1).drop_last() =~= all_abs.subrange(0, j as int));
            assert(all_abs.subrange(0, j + 1).last() == all_abs[j as int]);
        }
        let len_j = tensors[j].data.len();
        if len_j > usize::MAX - total {
            proof {
                lemma_total_data_prefix(all_abs, j + 1);
            }
            return Err(ShardError::SerializeFailed);
        }
        total = total + len_j;
        j += 1;
    }
    proof {
        assert(all_abs.subrange(0, tensors@.len() as int) =~= all_abs);
        assert forall|i: int| 0 <= i < tensors@.len() implies tensor_well_formed(
            #[trigger] tensors@[i]@,
        ) by {
            assert(tensors_abs(tensors@)[i] == tensors@[i]@);
        }
    }

    match codec_serialize(tensors) {
        Ok(v) => {
            proof {
                assert forall|i: int| 0 <= i < tensors@.len() implies st_lookup(
                    v@,
                    (#[trigger] tensors_abs(tensors@)[i]).name,
                ) == Some(tensors_abs(tensors@)[i]) by {
                    assert(tensors_abs(tensors@)[i] == tensors@[i]@);
                }
            }
            Ok(v)
        },
        Err(_) => Err(ShardError::SerializeFailed),
    }
}

/// Loads one planned chunk's tensors and serializes them into the bytes
/// of its output file.
///
/// On success the chunk's bytes are the codec's serialization of the
/// loaded tensors: they declare exactly those tensors' names, and store
/// each tensor under its name.  Together with the plan lemmas — every
/// classified tensor stands in exactly one plan entry — this pins which
/// output file a tensor's bytes end up in.
pub fn build_chunk(files: &Vec<LoadedFile>, plan: &crate::plan::ChunkPlan) -> (r: Result<
    (LoadResult, Vec<u8>),
    ShardError,
>)
    requires
        forall|i: int|
            0 <= i < plan.locations@.len() ==> (#[trigger] plan.locations@[i]).file_idx
                < files@.len(),
    ensures
        r matches Ok(out) ==> out.0.tensors@.len() == grouped_locs(
            plan.locations@,
            files@.len() as int,
        ).len(),
        r matches Ok(out) ==> (forall|i: int|
            0 <= i < out.0.tensors@.len() ==> (#[trigger] tensors_abs(out.0.tensors@)[i]).name
                == grouped_locs(plan.locations@, files@.len() as int)[i].name),
        r matches Ok(out) ==> (forall|i: int|
            0 <= i < out.0.tensors@.len() ==> tensor_from_file(
                files@,
                #[trigger] tensors_abs(out.0.tensors@)[i],
                grouped_locs(plan.locations@, files@.len() as int)[i].file_idx,
            )),
        r matches Ok(out) ==> out.1@ == st_serialized(tensors_abs(out.0.tensors@)),
        r matches Ok(out) ==> st_names_of(out.1@) == Some(
            names_set_of(tensors_abs(out.0.tensors@)),
        ),
        r matches Ok(out) ==> (forall|i: int|
            0 <= i < out.0.tensors@.len() ==> st_lookup(
                out.1@,
                (#[trigger] tensors_abs(out.0.tensors@)[i]).name,
            ) == Some(tensors_abs(out.0.tensors@)[i])),
        r matches Err(e) ==> e is HeaderParse || e is TensorNotFound
            || e is DuplicateTensorName || e is SerializeFailed,
{
    let loaded = match load_tensors(files, &plan.locations) {
        Ok(lr) => lr,
        Err(e) => {
            return Err(e);
        },
    };
    let data = match serialize_tensors(&loaded.tensors) {
        Ok(v) => v,
        Err(e) => {
            proof {
                // Every loaded tensor is well-formed, so the serializer
                // cannot have rejected one.
                if e is InvalidTensor {
                    assert(false);
                }
            }
            return Err(e);
        },
    };
    Ok((loaded, data))
}

} // verus!
