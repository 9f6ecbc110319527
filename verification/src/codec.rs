//! The boundary to the safetensors container codec.
//!
//! The codec parses container files and serializes new ones; the library
//! states its behaviour through named results over plain values: the set
//! of names a container declares, the tensor stored under a name, and the
//! bytes the codec produces for a list of tensors.  Everything else about
//! a tensor — its grouping, ordering, well-formedness — is verified
//! library logic.

use vstd::prelude::*;

use crate::dtype::spec_dtype_bits;

verus! {

/// A tensor extracted from a source file, with its payload copied into
/// an owned buffer so it outlives the source mapping.
#[derive(Debug)]
pub struct OwnedTensor {
    /// The tensor's full name.
    pub name: String,
    /// The container-format label of its element type, e.g. `"F32"`.
    pub dtype: String,
    /// The dimension sizes, outermost first.
    pub shape: Vec<usize>,
    /// The raw payload bytes.
    pub data: Vec<u8>,
}

/// Mathematical image of an `OwnedTensor`.
pub struct TensorAbs {
    /// The tensor's full name.
    pub name: Seq<char>,
    /// The element-type label.
    pub dtype: Seq<char>,
    /// The dimension sizes.
    pub shape: Seq<usize>,
    /// The payload bytes.
    pub data: Seq<u8>,
}

impl View for OwnedTensor {
    type V = TensorAbs;

    open spec fn view(&self) -> TensorAbs {
        TensorAbs { name: self.name@, dtype: self.dtype@, shape: self.shape@, data: self.data@ }
    }
}

/// The images of a list of tensors.
pub open spec fn tensors_abs(s: Seq<OwnedTensor>) -> Seq<TensorAbs> {
    s.map_values(|t: OwnedTensor| t@)
}

/// The names of a list of tensors.
pub open spec fn names_of(ts: Seq<TensorAbs>) -> Seq<Seq<char>> {
    ts.map_values(|t: TensorAbs| t.name)
}

/// The number of elements a shape describes.
pub open spec fn spec_num_elements(shape: Seq<usize>) -> int
    decreases shape.len(),
{
    if shape.len() == 0 {
        1
    } else {
        spec_num_elements(shape.drop_last()) * (shape.last() as int)
    }
}

/// The total payload size of a list of tensors.
pub open spec fn spec_total_data(ts: Seq<TensorAbs>) -> int
    decreases ts.len(),
{
    if ts.len() == 0 {
        0
    } else {
        spec_total_data(ts.drop_last()) + ts.last().data.len()
    }
}

/// Whether a tensor is one the codec accepts: a known element type, size
/// arithmetic that fits the machine, a whole number of bytes, and a
/// payload of exactly that many bytes.
pub open spec fn tensor_well_formed(t: TensorAbs) -> bool {
    &&& spec_dtype_bits(t.dtype) is Some
    &&& (forall|i: int|
        0 <= i <= t.shape.len() ==> spec_num_elements(#[trigger] t.shape.subrange(0, i))
            <= usize::MAX)
    &&& spec_num_elements(t.shape) * spec_dtype_bits(t.dtype).unwrap() <= usize::MAX
    &&& spec_num_elements(t.shape) * spec_dtype_bits(t.dtype).unwrap() % 8 == 0
    &&& t.data.len() * 8 == spec_num_elements(t.shape) * spec_dtype_bits(t.dtype).unwrap()
}

/// Whether the tensors' names are pairwise distinct.  The codec indexes
/// its header by name, so it only accepts such lists.
pub open spec fn distinct_names(ts: Seq<TensorAbs>) -> bool {
    forall|i: int, j: int|
        0 <= i < j < ts.len() ==> (#[trigger] ts[i]).name != (#[trigger] ts[j]).name
}

/// The set of names of a list of tensors.
pub open spec fn names_set_of(ts: Seq<TensorAbs>) -> Set<Seq<char>> {
    names_of(ts).to_set()
}

/// The bytes the codec produces for this list of tensors.  The codec
/// orders the tensors itself, so these bytes depend on nothing but the
/// tensors given.
pub uninterp spec fn st_serialized(ts: Seq<TensorAbs>) -> Seq<u8>;

/// Whether the codec accepts this list of tensors.  A deterministic
/// function of the list; for well-formed, distinctly named tensors the
/// codec's only remaining refusal is its cap on the header size.
pub uninterp spec fn st_accepts(ts: Seq<TensorAbs>) -> bool;

/// The set of tensor names a container file declares, or `None` when the
/// bytes are not a well-formed container.
pub uninterp spec fn st_names_of(data: Seq<u8>) -> Option<Set<Seq<char>>>;

/// The tensor a well-formed container stores under a name, or `None`
/// when the container is malformed or has no such tensor.
pub uninterp spec fn st_lookup(data: Seq<u8>, name: Seq<char>) -> Option<TensorAbs>;

/// Why the codec could not extract the requested tensors.
pub enum CodecFailure {
    /// The container's header failed to parse.
    Header,
    /// The name at this index was not found in the container.
    Missing(usize),
}

/// Relies on SafeTensors::deserialize and SafeTensors::names: parses a
/// container's header and lists the tensor names it declares, each name
/// once, in the codec's own order.
#[verifier::external_body]
pub(crate) fn codec_header_names(data: &[u8]) -> (r: Result<Vec<String>, ()>)
    ensures
        r is Ok <==> st_names_of(data@) is Some,
        r matches Ok(v) ==> v@.map_values(|s: String| s@).to_set() == st_names_of(data@).unwrap(),
        r matches Ok(v) ==> (forall|i: int, j: int|
            0 <= i < j < v@.len() ==> v@[i]@ != v@[j]@),
        r matches Ok(v) ==> (forall|i: int|
            0 <= i < v@.len() ==> st_lookup(data@, #[trigger] v@[i]@) is Some),
{
    match safetensors::SafeTensors::deserialize(data) {
        Ok(st) => Ok(st.names().into_iter().map(|s| s.to_string()).collect()),
        Err(_) => Err(()),
    }
}

/// Relies on SafeTensors::deserialize and SafeTensors::tensor: parses a
/// container's header once, then copies out each requested tensor with
/// its name, element-type label, shape and payload.  Parsing validates
/// every tensor's sizes — the shape product is computed with overflow
/// checks, must describe whole bytes, and must equal the stored byte
/// range — so every extracted tensor satisfies the codec's size rules.
#[verifier::external_body]
pub(crate) fn codec_extract(data: &[u8], names: &Vec<String>) -> (r: Result<
    Vec<OwnedTensor>,
    CodecFailure,
>)
    ensures
        r matches Ok(v) ==> v@.len() == names@.len(),
        r matches Ok(v) ==> (forall|i: int|
            0 <= i < v@.len() ==> st_lookup(data@, #[trigger] names@[i]@) == Some(v@[i]@)),
        r matches Ok(v) ==> (forall|i: int| 0 <= i < v@.len() ==> (#[trigger] v@[i]@).name
            == names@[i]@),
        r matches Ok(v) ==> (forall|i: int|
            0 <= i < v@.len() ==> tensor_well_formed(#[trigger] v@[i]@)),
        st_names_of(data@) is Some && (forall|i: int|
            0 <= i < names@.len() ==> st_lookup(data@, #[trigger] names@[i]@) is Some) ==> r
            is Ok,
        r matches Err(f) ==> (f is Header ==> st_names_of(data@) is None),
        r matches Err(f) ==> (f matches CodecFailure::Missing(i) ==> 0 <= i < names@.len()
            && st_lookup(
            data@,
            names@[i as int]@,
        ) is None),
{
    let st = match safetensors::SafeTensors::deserialize(data) {
        Ok(st) => st,
        Err(_) => return Err(CodecFailure::Header),
    };
    let mut out = Vec::with_capacity(names.len());
    for (i, name) in names.iter().enumerate() {
        let view = match st.tensor(name) {
            Ok(v) => v,
            Err(_) => return Err(CodecFailure::Missing(i)),
        };
        let (dtype, shape) = (view.dtype().to_string(), view.shape().to_vec());
        out.push(OwnedTensor { name: name.clone(), dtype, shape, data: view.data().to_vec() });
    }
    Ok(out)
}

/// Relies on serde_json (for Dtype's Deserialize impl), TensorView::new
/// and safetensors::serialize: builds one borrowed view per tensor and
/// serializes them into one container byte buffer.
///
/// The names must be pairwise distinct: the codec indexes its header by
/// name, and on duplicates its header serializer reads out of bounds.
/// Within the required inputs the codec sorts the tensors itself with a
/// stable order that distinct names make total, so the bytes depend only
/// on the multiset of tensors; and parsing the produced bytes declares
/// exactly the given names and stores exactly the given tensors.
#[verifier::external_body]
pub(crate) fn codec_serialize(ts: &Vec<OwnedTensor>) -> (r: Result<Vec<u8>, ()>)
    requires
        forall|i: int| 0 <= i < ts@.len() ==> tensor_well_formed(#[trigger] ts@[i]@),
        spec_total_data(tensors_abs(ts@)) <= usize::MAX,
        distinct_names(tensors_abs(ts@)),
    ensures
        r is Ok <==> st_accepts(tensors_abs(ts@)),
        r matches Ok(v) ==> v@ == st_serialized(tensors_abs(ts@)),
        r matches Ok(v) ==> (forall|ts2: Seq<TensorAbs>|
            ts2.to_multiset() == tensors_abs(ts@).to_multiset() ==> v@ == st_serialized(ts2)),
        r matches Ok(v) ==> st_names_of(v@) == Some(names_set_of(tensors_abs(ts@))),
        r matches Ok(v) ==> (forall|i: int|
            0 <= i < ts@.len() ==> st_lookup(v@, (#[trigger] ts@[i]@).name) == Some(ts@[i]@)),
{
    let mut views = Vec::with_capacity(ts.len());
    for t in ts.iter() {
        let label = serde_json::Value::String(t.dtype.clone());
        let dtype: safetensors::tensor::Dtype = match serde_json::from_value(label) {
            Ok(d) => d,
            Err(_) => return Err(()),
        };
        let view = match safetensors::tensor::TensorView::new(dtype, t.shape.clone(), &t.data) {
            Ok(v) => v,
            Err(_) => return Err(()),
        };
        views.push((t.name.as_str(), view));
    }
    safetensors::serialize(views, None).map_err(|_| ())
}

} // verus!
