//! The sharding pipeline's decision stages.
//!
//! A run walks the stages in order: discover the source files, resolve
//! the naming rules, classify every tensor of every source, plan the
//! chunks, then for each plan entry load and serialize its tensors and
//! record a manifest entry.  The stages here are the pure decisions; the
//! driver around the library performs the file writes between them.

use vstd::prelude::*;

use crate::classify::{
    classify_checked, spec_classify, spec_layer_index, spec_layer_match, LayerPattern,
    TensorClass, TensorLocation,
};
use crate::codec::{codec_header_names, st_names_of};
use crate::error::ShardError;
use crate::manifest::{ManifestChunk, ModelManifest};
use crate::plan::{locs_abs, Classification, ChunkPlan, LocAbs};
use crate::source::{header_parse_witness, owned_bytes, source_slice, LoadedFile, SourceBytes};

verus! {

/// The inputs of one sharding run.
pub struct Args {
    /// Directory holding the source container files.
    pub input: String,
    /// Directory that receives the chunk files and the manifest.
    pub output: String,
    /// Model identifier recorded in the manifest.
    pub model_id: String,
    /// Number of transformer layers per chunk.
    pub layers_per_chunk: u32,
}

/// The listed locations: the first `n` names of file `f`, after every
/// name of the earlier files, each paired with its file's index.
pub open spec fn listed_locs_upto(nv: Seq<Vec<String>>, f: int, n: int) -> Seq<LocAbs>
    recommends
        0 <= f <= nv.len(),
    decreases f, n,
{
    if f <= 0 && n <= 0 {
        Seq::empty()
    } else if n <= 0 {
        listed_locs_upto(nv, f - 1, nv[f - 1]@.len() as int)
    } else {
        listed_locs_upto(nv, f, n - 1).push(LocAbs { file_idx: f, name: nv[f]@[n - 1]@ })
    }
}

/// Every listed name with its file's index, in listing order.
pub open spec fn listed_locs(nv: Seq<Vec<String>>) -> Seq<LocAbs> {
    listed_locs_upto(nv, nv.len() as int, 0)
}

/// The listed locations whose names classify as base tensors.
pub open spec fn base_locs_of(pairs: Seq<LocAbs>, prefix: Seq<char>) -> Seq<LocAbs> {
    pairs.filter(|v: LocAbs| spec_classify(v.name, prefix) == TensorClass::Base)
}

/// The listed locations whose names classify into a layer, with the
/// captured layer index.
pub open spec fn layer_pairs_of(pairs: Seq<LocAbs>, prefix: Seq<char>) -> Seq<(int, LocAbs)> {
    pairs.filter(|v: LocAbs| spec_classify(v.name, prefix) is Layer).map_values(
        |v: LocAbs| (spec_layer_index(v.name, prefix), v),
    )
}

/// Mathematical image of the layer entries.
pub open spec fn layers_abs(layers: Seq<(u32, TensorLocation)>) -> Seq<(int, LocAbs)> {
    layers.map_values(|p: (u32, TensorLocation)| (p.0 as int, p.1@))
}

/// Whether every listed layer name's captured index fits `u32`.
pub open spec fn indices_representable(pairs: Seq<LocAbs>, prefix: Seq<char>) -> bool {
    forall|i: int|
        0 <= i < pairs.len() ==> (spec_layer_match((#[trigger] pairs[i]).name, prefix)
            ==> spec_layer_index(pairs[i].name, prefix) <= u32::MAX)
}

/// One more listed name lands in exactly one side of the partition.
proof fn lemma_partition_push(pairs: Seq<LocAbs>, prefix: Seq<char>, v: LocAbs)
    ensures
        base_locs_of(pairs.push(v), prefix) == (if spec_classify(v.name, prefix)
            == TensorClass::Base {
            base_locs_of(pairs, prefix).push(v)
        } else {
            base_locs_of(pairs, prefix)
        }),
        layer_pairs_of(pairs.push(v), prefix) == (if spec_classify(v.name, prefix) is Layer {
            layer_pairs_of(pairs, prefix).push((spec_layer_index(v.name, prefix), v))
        } else {
            layer_pairs_of(pairs, prefix)
        }),
{
    reveal(Seq::filter);
    assert(pairs.push(v).drop_last() =~= pairs);
    assert(pairs.push(v).last() == v);
    let layer_pred = |x: LocAbs| spec_classify(x.name, prefix) is Layer;
    let to_pair = |x: LocAbs| (spec_layer_index(x.name, prefix), x);
    if layer_pred(v) {
        assert(pairs.push(v).filter(layer_pred) == pairs.filter(layer_pred).push(v));
        assert(pairs.filter(layer_pred).push(v).map_values(to_pair) =~= pairs.filter(
            layer_pred,
        ).map_values(to_pair).push(to_pair(v)));
    }
}

/// The names processed so far are a prefix of the whole listing.
proof fn lemma_listed_prefix(nv: Seq<Vec<String>>, f: int, n: int)
    requires
        0 <= f < nv.len(),
        0 <= n <= nv[f]@.len(),
    ensures
        listed_locs_upto(nv, f, n).is_prefix_of(listed_locs(nv)),
    decreases nv.len() - f, nv[f]@.len() - n,
{
    if n < nv[f]@.len() {
        lemma_listed_prefix(nv, f, n + 1);
        let cur = listed_locs_upto(nv, f, n);
        let next = listed_locs_upto(nv, f, n + 1);
        assert(cur =~= next.subrange(0, cur.len() as int));
        assert(cur =~= listed_locs(nv).subrange(0, cur.len() as int));
    } else {
        if f + 1 < nv.len() {
            lemma_listed_prefix(nv, f + 1, 0);
            assert(listed_locs_upto(nv, f + 1, 0) == listed_locs_upto(nv, f, n));
        } else {
            assert(listed_locs(nv) == listed_locs_upto(nv, f + 1, 0));
            assert(listed_locs_upto(nv, f + 1, 0) == listed_locs_upto(nv, f, n));
            assert(listed_locs_upto(nv, f, n) =~= listed_locs(nv).subrange(
                0,
                listed_locs_upto(nv, f, n).len() as int,
            ));
        }
    }
}

/// Sorts every listed tensor name into the base set or its layer's group.
///
/// The outcome is exact: the base locations are precisely the listed
/// names that classify as base tensors, in listing order, and the layer
/// entries precisely the listed names that classify into a layer, with
/// their captured indices; the call succeeds exactly when every captured
/// index fits `u32`, and otherwise reports the first offending tensor.
pub fn classify_names(names_per_file: &Vec<Vec<String>>, pattern: &LayerPattern) -> (r: Result<
    Classification,
    ShardError,
>)
    ensures
        r matches Ok(c) ==> {
            &&& c.wf()
            &&& locs_abs(c.base@) == base_locs_of(
                listed_locs(names_per_file@),
                pattern.prefix@,
            )
            &&& layers_abs(c.layers@) == layer_pairs_of(
                listed_locs(names_per_file@),
                pattern.prefix@,
            )
            &&& forall|j: int|
                0 <= j < c.base@.len() ==> (#[trigger] c.base@[j]).file_idx
                    < names_per_file@.len() && spec_classify(c.base@[j].name@, pattern.prefix@)
                    == TensorClass::Base
            &&& forall|j: int|
                0 <= j < c.layers@.len() ==> (#[trigger] c.layers@[j]).1.file_idx
                    < names_per_file@.len() && spec_classify(
                    c.layers@[j].1.name@,
                    pattern.prefix@,
                ) == TensorClass::Layer(c.layers@[j].0)
            &&& (c.layers@.len() == 0 ==> c.max_layer == 0)
            &&& (c.layers@.len() > 0 ==> exists|j: int|
                0 <= j < c.layers@.len() && (#[trigger] c.layers@[j]).0 == c.max_layer)
        },
        r is Ok <==> indices_representable(listed_locs(names_per_file@), pattern.prefix@),
        r matches Err(e) ==> e is LayerIndexOverflow,
        r matches Err(e) ==> (e matches ShardError::LayerIndexOverflow { name }
            ==> spec_layer_match(name@, pattern.prefix@) && spec_layer_index(
                name@,
                pattern.prefix@,
            ) > u32::MAX),
{
    let ghost nv = names_per_file@;
    let ghost prefix = pattern.prefix@;
    let mut base: Vec<TensorLocation> = Vec::new();
    let mut layers: Vec<(u32, TensorLocation)> = Vec::new();
    let mut max_layer: u32 = 0;
    let mut f: usize = 0;
    proof {
        reveal(Seq::filter);
        assert(locs_abs(base@) =~= Seq::<LocAbs>::empty());
        assert(layers_abs(layers@) =~= Seq::<(int, LocAbs)>::empty());
        assert(base_locs_of(listed_locs_upto(nv, 0, 0), prefix) =~= Seq::<LocAbs>::empty());
        assert(layer_pairs_of(listed_locs_upto(nv, 0, 0), prefix) =~= Seq::<(
            int,
            LocAbs,
        )>::empty());
    }
    while f < names_per_file.len()
        invariant
            0 <= f <= nv.len(),
            nv == names_per_file@,
            prefix == pattern.prefix@,
            locs_abs(base@) == base_locs_of(listed_locs_upto(nv, f as int, 0), prefix),
            layers_abs(layers@) == layer_pairs_of(listed_locs_upto(nv, f as int, 0), prefix),
            indices_representable(listed_locs_upto(nv, f as int, 0), prefix),
            forall|j: int|
                0 <= j < base@.len() ==> (#[trigger] base@[j]).file_idx < nv.len()
                    && spec_classify(base@[j].name@, prefix) == TensorClass::Base,
            forall|j: int|
                0 <= j < layers@.len() ==> (#[trigger] layers@[j]).1.file_idx < nv.len()
                    && spec_classify(layers@[j].1.name@, prefix) == TensorClass::Layer(
                    layers@[j].0,
                ),
            forall|j: int| 0 <= j < layers@.len() ==> (#[trigger] layers@[j]).0 <= max_layer,
            layers@.len() == 0 ==> max_layer == 0,
            layers@.len() > 0 ==> exists|j: int|
                0 <= j < layers@.len() && (#[trigger] layers@[j]).0 == max_layer,
        decreases nv.len() - f,
    {
        let file_names = &names_per_file[f];
        let mut n: usize = 0;
        while n < file_names.len()
            invariant
                0 <= n <= file_names@.len(),
                0 <= f < nv.len(),
                nv == names_per_file@,
                prefix == pattern.prefix@,
                file_names@ == nv[f as int]@,
                locs_abs(base@) == base_locs_of(listed_locs_upto(nv, f as int, n as int), prefix),
                layers_abs(layers@) == layer_pairs_of(
                    listed_locs_upto(nv, f as int, n as int),
                    prefix,
                ),
                indices_representable(listed_locs_upto(nv, f as int, n as int), prefix),
                forall|j: int|
                    0 <= j < base@.len() ==> (#[trigger] base@[j]).file_idx < nv.len()
                        && spec_classify(base@[j].name@, prefix) == TensorClass::Base,
                forall|j: int|
                    0 <= j < layers@.len() ==> (#[trigger] layers@[j]).1.file_idx < nv.len()
                        && spec_classify(layers@[j].1.name@, prefix) == TensorClass::Layer(
                        layers@[j].0,
                    ),
                forall|j: int|
                    0 <= j < layers@.len() ==> (#[trigger] layers@[j]).0 <= max_layer,
                layers@.len() == 0 ==> max_layer == 0,
                layers@.len() > 0 ==> exists|j: int|
                    0 <= j < layers@.len() && (#[trigger] layers@[j]).0 == max_layer,
            decreases file_names@.len() - n,
        {
            let name = &file_names[n];
            let ghost processed = listed_locs_upto(nv, f as int, n as int);
            let ghost v = LocAbs { file_idx: f as int, name: name@ };
            proof {
                assert(listed_locs_upto(nv, f as int, n + 1) == processed.push(v));
                lemma_partition_push(processed, prefix, v);
            }
            match classify_checked(name.as_str(), pattern) {
                None => {
                    // The captured index does not fit, so the whole
                    // listing is unrepresentable and the run must stop.
                    proof {
                        lemma_listed_prefix(nv, f as int, n + 1);
                        let all = listed_locs(nv);
                        assert(processed.push(v)[processed.len() as int] == v);
                        assert(all.subrange(
                            0,
                            processed.push(v).len() as int,
                        )[processed.len() as int] == all[processed.len() as int]);
                        assert(all[processed.len() as int] == v);
                        assert(spec_layer_match(v.name, prefix) && spec_layer_index(
                            v.name,
                            prefix,
                        ) > u32::MAX);
                        assert(!indices_representable(all, prefix));
                    }
                    return Err(ShardError::LayerIndexOverflow { name: name.clone() });
                },
                Some(TensorClass::Base) => {
                    let ghost prev_base = base@;
                    base.push(TensorLocation { file_idx: f, name: name.clone() });
                    proof {
                        assert(locs_abs(base@) =~= locs_abs(prev_base).push(v));
                    }
                },
                Some(TensorClass::Layer(l)) => {
                    if l > max_layer {
                        max_layer = l;
                    }
                    let ghost prev_layers = layers@;
                    layers.push((l, TensorLocation { file_idx: f, name: name.clone() }));
                    proof {
                        crate::classify::lemma_layer_index_nonneg(v.name, prefix);
                        assert(l as int == spec_layer_index(v.name, prefix));
                        assert(layers_abs(layers@) =~= layers_abs(prev_layers).push(
                            (l as int, v),
                        ));
                        let last = layers@.len() - 1;
                        if layers@[last].0 == max_layer {
                            assert(0 <= last < layers@.len() && (#[trigger] layers@[last]).0
                                == max_layer);
                        } else {
                            // The earlier witness for the maximum is untouched
                            // by the push.
                            let j = choose|j: int|
                                0 <= j < prev_layers.len() && (#[trigger] prev_layers[j]).0
                                    == max_layer;
                            assert(0 <= j < layers@.len() && (#[trigger] layers@[j]).0
                                == max_layer);
                        }
                    }
                },
            }
            n += 1;
        }
        proof {
            assert(listed_locs_upto(nv, f + 1, 0) == listed_locs_upto(
                nv,
                f as int,
                nv[f as int]@.len() as int,
            ));
        }
        f += 1;
    }
    proof {
        assert(listed_locs(nv) == listed_locs_upto(nv, nv.len() as int, 0));
    }
    Ok(Classification { base, layers, max_layer })
}

/// The views of a list of names.
pub open spec fn name_views(v: Seq<String>) -> Seq<Seq<char>> {
    v.map_values(|s: String| s@)
}

/// Whether the classification records name `n` for file `f`.
pub open spec fn classification_has_name(c: Classification, f: int, n: Seq<char>) -> bool {
    ||| (exists|j: int|
        0 <= j < c.base@.len() && (#[trigger] c.base@[j]).file_idx == f && c.base@[j].name@
            == n)
    ||| (exists|j: int|
        0 <= j < c.layers@.len() && (#[trigger] c.layers@[j]).1.file_idx == f
            && c.layers@[j].1.name@ == n)
}

/// The names the classification assigns to file `f`.
pub open spec fn classified_names(c: Classification, f: int) -> Set<Seq<char>> {
    Set::new(|n: Seq<char>| classification_has_name(c, f, n))
}

/// Whether every name in the set keeps its captured layer index within
/// `u32`.
pub open spec fn names_representable(names: Set<Seq<char>>, prefix: Seq<char>) -> bool {
    forall|n: Seq<char>|
        names.contains(n) ==> (spec_layer_match(n, prefix) ==> spec_layer_index(n, prefix)
            <= u32::MAX)
}

/// Whether every source is an owned buffer that parses and declares only
/// names with representable layer indices.  On such inputs nothing is
/// left to the disk, and classification is owed to succeed.
pub open spec fn sources_classifiable(files: Seq<LoadedFile>, prefix: Seq<char>) -> bool {
    &&& forall|f: int| 0 <= f < files.len() ==> (#[trigger] files[f]).bytes is Owned
    &&& forall|f: int|
        0 <= f < files.len() ==> st_names_of(owned_bytes((#[trigger] files[f]).bytes)) is Some
    &&& forall|f: int|
        0 <= f < files.len() ==> names_representable(
            st_names_of(owned_bytes((#[trigger] files[f]).bytes)).unwrap(),
            prefix,
        )
}

/// Every listed location carries one of the listed files' names.
proof fn lemma_listed_elems(nv: Seq<Vec<String>>, f: int, n: int)
    requires
        0 <= f <= nv.len(),
        0 <= n,
        f < nv.len() ==> n <= nv[f]@.len(),
        f == nv.len() ==> n == 0,
    ensures
        forall|i: int|
            0 <= i < listed_locs_upto(nv, f, n).len() ==> (exists|f2: int, i2: int|
                0 <= f2 < nv.len() && 0 <= i2 < nv[f2]@.len() && (#[trigger] listed_locs_upto(
                    nv,
                    f,
                    n,
                )[i]) == (LocAbs { file_idx: f2, name: nv[f2]@[i2]@ })),
    decreases f, n,
{
    if f <= 0 && n <= 0 {
    } else if n <= 0 {
        lemma_listed_elems(nv, f - 1, nv[f - 1]@.len() as int);
        let prior = listed_locs_upto(nv, f - 1, nv[f - 1]@.len() as int);
        assert(listed_locs_upto(nv, f, n) == prior);
        assert forall|i: int| 0 <= i < listed_locs_upto(nv, f, n).len() implies (exists|
            f2: int,
            i2: int,
        |
            0 <= f2 < nv.len() && 0 <= i2 < nv[f2]@.len() && (#[trigger] listed_locs_upto(
                nv,
                f,
                n,
            )[i]) == (LocAbs { file_idx: f2, name: nv[f2]@[i2]@ })) by {
            assert(listed_locs_upto(nv, f, n)[i] == prior[i]);
        }
    } else {
        lemma_listed_elems(nv, f, n - 1);
        let prev = listed_locs_upto(nv, f, n - 1);
        let cur = listed_locs_upto(nv, f, n);
        assert forall|i: int| 0 <= i < cur.len() implies (exists|f2: int, i2: int|
            0 <= f2 < nv.len() && 0 <= i2 < nv[f2]@.len() && (#[trigger] cur[i]) == (LocAbs {
                file_idx: f2,
                name: nv[f2]@[i2]@,
            })) by {
            if i < prev.len() {
                assert(cur[i] == prev[i]);
            } else {
                assert(cur[i] == (LocAbs { file_idx: f, name: nv[f]@[n - 1]@ }));
                assert(0 <= f < nv.len() && 0 <= n - 1 < nv[f]@.len());
            }
        }
    }
}

/// A location in the base partition comes from the listed locations and
/// classifies as a base tensor.
proof fn lemma_base_locs_source(pairs: Seq<LocAbs>, prefix: Seq<char>, v: LocAbs)
    requires
        base_locs_of(pairs, prefix).contains(v),
    ensures
        pairs.contains(v),
        spec_classify(v.name, prefix) == TensorClass::Base,
    decreases pairs.len(),
{
    reveal(Seq::filter);
    if pairs.len() > 0 {
        let rest = pairs.drop_last();
        let last = pairs.last();
        if spec_classify(last.name, prefix) == TensorClass::Base && v == last {
            assert(pairs[pairs.len() - 1] == v);
        } else {
            assert(base_locs_of(rest, prefix).contains(v));
            lemma_base_locs_source(rest, prefix, v);
            let i = choose|i: int| 0 <= i < rest.len() && rest[i] == v;
            assert(pairs[i] == v);
        }
    }
}

/// A listed location that classifies as a base tensor appears in the
/// base partition.
proof fn lemma_base_locs_member(pairs: Seq<LocAbs>, prefix: Seq<char>, i: int)
    requires
        0 <= i < pairs.len(),
        spec_classify(pairs[i].name, prefix) == TensorClass::Base,
    ensures
        base_locs_of(pairs, prefix).contains(pairs[i]),
    decreases pairs.len(),
{
    reveal(Seq::filter);
    let rest = pairs.drop_last();
    if i < pairs.len() - 1 {
        lemma_base_locs_member(rest, prefix, i);
        assert(rest[i] == pairs[i]);
        let j = choose|j: int|
            0 <= j < base_locs_of(rest, prefix).len() && base_locs_of(rest, prefix)[j]
                == pairs[i];
        assert(base_locs_of(pairs, prefix)[j] == pairs[i]);
    } else {
        assert(pairs.last() == pairs[i]);
        let flt = base_locs_of(pairs, prefix);
        assert(flt[flt.len() - 1] == pairs[i]);
    }
}

/// A pair in the layer partition comes from the listed locations and
/// classifies into its layer.
proof fn lemma_layer_pairs_source(pairs: Seq<LocAbs>, prefix: Seq<char>, p: (int, LocAbs))
    requires
        layer_pairs_of(pairs, prefix).contains(p),
    ensures
        pairs.contains(p.1),
        spec_classify(p.1.name, prefix) is Layer,
        p.0 == spec_layer_index(p.1.name, prefix),
{
    let flt = pairs.filter(|v: LocAbs| spec_classify(v.name, prefix) is Layer);
    let idx = choose|idx: int|
        0 <= idx < layer_pairs_of(pairs, prefix).len() && layer_pairs_of(pairs, prefix)[idx]
            == p;
    assert(layer_pairs_of(pairs, prefix)[idx] == (
        spec_layer_index(flt[idx].name, prefix),
        flt[idx],
    ));
    assert(p.1 == flt[idx]);
    broadcast use vstd::seq_lib::group_filter_ensures;

    assert(flt.contains(p.1));
    pairs.lemma_filter_contains_rev(|v: LocAbs| spec_classify(v.name, prefix) is Layer, p.1);
}

/// A listed location that classifies into a layer appears in the layer
/// partition with its captured index.
proof fn lemma_layer_pairs_member(pairs: Seq<LocAbs>, prefix: Seq<char>, i: int)
    requires
        0 <= i < pairs.len(),
        spec_classify(pairs[i].name, prefix) is Layer,
    ensures
        layer_pairs_of(pairs, prefix).contains(
            (spec_layer_index(pairs[i].name, prefix), pairs[i]),
        ),
{
    let flt = pairs.filter(|v: LocAbs| spec_classify(v.name, prefix) is Layer);
    pairs.lemma_filter_contains(|v: LocAbs| spec_classify(v.name, prefix) is Layer, i);
    assert(flt.contains(pairs[i]));
    let j = choose|j: int| 0 <= j < flt.len() && flt[j] == pairs[i];
    assert(layer_pairs_of(pairs, prefix)[j] == (spec_layer_index(pairs[i].name, prefix), pairs[i]));
}

/// Classifies every tensor declared by every source file.
///
/// Walks the sources in index order and parses each header once; the
/// names that come back are sorted by `classify_names`, whose contract
/// pins the partition exactly.  For every owned source the classified
/// names are exactly the names its container declares; when every
/// source is an owned buffer that parses and declares only representable
/// layer indices, classification is owed to succeed.  A header that
/// fails to parse, or a layer name whose index does not fit `u32`, is a
/// fatal error naming the file or the tensor.
pub fn classify_sources(files: &Vec<LoadedFile>, pattern: &LayerPattern) -> (r: Result<
    Classification,
    ShardError,
>)
    ensures
        r matches Ok(c) ==> {
            &&& c.wf()
            &&& forall|j: int|
                0 <= j < c.base@.len() ==> (#[trigger] c.base@[j]).file_idx < files@.len()
                    && spec_classify(c.base@[j].name@, pattern.prefix@) == TensorClass::Base
            &&& forall|j: int|
                0 <= j < c.layers@.len() ==> (#[trigger] c.layers@[j]).1.file_idx
                    < files@.len() && spec_classify(c.layers@[j].1.name@, pattern.prefix@)
                    == TensorClass::Layer(c.layers@[j].0)
            &&& (c.layers@.len() == 0 ==> c.max_layer == 0)
            &&& (c.layers@.len() > 0 ==> exists|j: int|
                0 <= j < c.layers@.len() && (#[trigger] c.layers@[j]).0 == c.max_layer)
        },
        r matches Ok(c) ==> (forall|f: int|
            0 <= f < files@.len() ==> ((#[trigger] files@[f]).bytes is Owned ==> st_names_of(
                owned_bytes(files@[f].bytes),
            ) is Some && classified_names(c, f) == st_names_of(
                owned_bytes(files@[f].bytes),
            ).unwrap())),
        r matches Err(e) ==> e is HeaderParse || e is LayerIndexOverflow,
        r matches Err(e) ==> (e matches ShardError::HeaderParse { path }
            ==> header_parse_witness(files@, path@)),
        r matches Err(e) ==> (e matches ShardError::LayerIndexOverflow { name }
            ==> spec_layer_match(name@, pattern.prefix@) && spec_layer_index(
                name@,
                pattern.prefix@,
            ) > u32::MAX),
        sources_classifiable(files@, pattern.prefix@) ==> r is Ok,
{
    let ghost prefix = pattern.prefix@;
    let mut names_per_file: Vec<Vec<String>> = Vec::new();
    let mut f: usize = 0;
    while f < files.len()
        invariant
            0 <= f <= files@.len(),
            prefix == pattern.prefix@,
            names_per_file@.len() == f,
            forall|f2: int|
                0 <= f2 < f ==> ((#[trigger] files@[f2]).bytes is Owned ==> st_names_of(
                    owned_bytes(files@[f2].bytes),
                ) is Some && name_views(names_per_file@[f2]@).to_set() == st_names_of(
                    owned_bytes(files@[f2].bytes),
                ).unwrap()),
        decreases files@.len() - f,
    {
        let file = &files[f];
        let data = source_slice(&file.bytes);
        let names = match codec_header_names(data) {
            Ok(v) => v,
            Err(_) => {
                proof {
                    if sources_classifiable(files@, prefix) {
                        // Every source is owned and parses, so the codec
                        // cannot have refused this header.
                        assert(files@[f as int].bytes is Owned);
                        assert(data@ == owned_bytes(files@[f as int].bytes));
                        assert(false);
                    }
                    assert(0 <= f < files@.len() && (#[trigger] files@[f as int]).path@
                        == file.path@ && match files@[f as int].bytes {
                        SourceBytes::Mapped(_) => true,
                        SourceBytes::Owned(v) => st_names_of(v@) is None,
                    });
                    assert(header_parse_witness(files@, file.path@));
                }
                return Err(ShardError::HeaderParse { path: file.path.clone() });
            },
        };
        proof {
            // Tie this file's listed names to its owned bytes.
            if files@[f as int].bytes is Owned {
                assert(data@ == owned_bytes(files@[f as int].bytes));
                assert(name_views(names@) =~= names@.map_values(|s: String| s@));
                assert(name_views(names@).to_set() == st_names_of(data@).unwrap());
            }
        }
        names_per_file.push(names);
        f += 1;
    }

    let ghost nv = names_per_file@;
    match classify_names(&names_per_file, pattern) {
        Ok(c) => {
            proof {
                lemma_listed_elems(nv, nv.len() as int, 0);
                let listed = listed_locs(nv);
                assert forall|f2: int|
                    0 <= f2 < files@.len() && (#[trigger] files@[f2]).bytes
                        is Owned implies st_names_of(owned_bytes(files@[f2].bytes)) is Some
                    && classified_names(c, f2) == st_names_of(
                    owned_bytes(files@[f2].bytes),
                ).unwrap() by {
                    let declared = st_names_of(owned_bytes(files@[f2].bytes)).unwrap();
                    assert(name_views(nv[f2]@).to_set() == declared);
                    assert forall|n: Seq<char>|
                        classified_names(c, f2).contains(n) implies declared.contains(n) by {
                        let loc = LocAbs { file_idx: f2, name: n };
                        if exists|j: int|
                            0 <= j < c.base@.len() && (#[trigger] c.base@[j]).file_idx == f2
                                && c.base@[j].name@ == n {
                            let j = choose|j: int|
                                0 <= j < c.base@.len() && (#[trigger] c.base@[j]).file_idx
                                    == f2 && c.base@[j].name@ == n;
                            assert(locs_abs(c.base@)[j] == loc);
                            assert(base_locs_of(listed, prefix).contains(loc));
                            lemma_base_locs_source(listed, prefix, loc);
                        } else {
                            let j = choose|j: int|
                                0 <= j < c.layers@.len() && (#[trigger] c.layers@[j]).1.file_idx
                                    == f2 && c.layers@[j].1.name@ == n;
                            assert(layers_abs(c.layers@)[j] == (
                                c.layers@[j].0 as int,
                                loc,
                            ));
                            assert(layer_pairs_of(listed, prefix).contains(
                                (c.layers@[j].0 as int, loc),
                            ));
                            lemma_layer_pairs_source(
                                listed,
                                prefix,
                                (c.layers@[j].0 as int, loc),
                            );
                        }
                        assert(listed.contains(loc));
                        let i = choose|i: int| 0 <= i < listed.len() && listed[i] == loc;
                        let (fw, iw) = choose|fw: int, iw: int|
                            0 <= fw < nv.len() && 0 <= iw < nv[fw]@.len() && (
                            #[trigger] listed[i]) == (LocAbs {
                                file_idx: fw,
                                name: nv[fw]@[iw]@,
                            });
                        assert(fw == f2 && nv[f2]@[iw]@ == n);
                        assert(name_views(nv[f2]@)[iw] == n);
                        assert(name_views(nv[f2]@).contains(n));
                    }
                    assert forall|n: Seq<char>|
                        declared.contains(n) implies classified_names(c, f2).contains(n) by {
                        assert(name_views(nv[f2]@).contains(n));
                        let i2 = choose|i2: int|
                            0 <= i2 < name_views(nv[f2]@).len() && name_views(nv[f2]@)[i2]
                                == n;
                        assert(nv[f2]@[i2]@ == n);
                        let loc = LocAbs { file_idx: f2, name: n };
                        lemma_listed_prefix(nv, f2, i2 + 1);
                        let upto = listed_locs_upto(nv, f2, i2 + 1);
                        assert(upto == listed_locs_upto(nv, f2, i2).push(loc));
                        assert(upto[upto.len() - 1] == loc);
                        assert(upto.len() <= listed.len());
                        assert(listed[upto.len() - 1] == loc);
                        assert(listed.contains(loc));
                        let li = choose|li: int| 0 <= li < listed.len() && listed[li] == loc;
                        if spec_classify(n, prefix) == TensorClass::Base {
                            lemma_base_locs_member(listed, prefix, li);
                            assert(locs_abs(c.base@).contains(loc));
                            let j = choose|j: int|
                                0 <= j < locs_abs(c.base@).len() && locs_abs(c.base@)[j]
                                    == loc;
                            assert(c.base@[j]@ == loc);
                            assert(0 <= j < c.base@.len() && (#[trigger] c.base@[j]).file_idx
                                == f2 && c.base@[j].name@ == n);
                        } else {
                            assert(spec_classify(n, prefix) is Layer);
                            lemma_layer_pairs_member(listed, prefix, li);
                            let p = (spec_layer_index(n, prefix), loc);
                            assert(layers_abs(c.layers@).contains(p));
                            let j = choose|j: int|
                                0 <= j < layers_abs(c.layers@).len() && layers_abs(
                                    c.layers@,
                                )[j] == p;
                            assert(layers_abs(c.layers@)[j] == (
                                c.layers@[j].0 as int,
                                c.layers@[j].1@,
                            ));
                            assert(c.layers@[j].1@ == loc);
                            assert(0 <= j < c.layers@.len() && (
                            #[trigger] c.layers@[j]).1.file_idx == f2 && c.layers@[j].1.name@
                                == n);
                        }
                        assert(classification_has_name(c, f2, n));
                    }
                    assert(classified_names(c, f2) =~= declared);
                }
            }
            Ok(c)
        },
        Err(e) => {
            proof {
                if sources_classifiable(files@, prefix) {
                    // Classifiable sources list only representable names,
                    // so classification cannot have failed.
                    lemma_listed_elems(nv, nv.len() as int, 0);
                    let listed = listed_locs(nv);
                    assert forall|i: int| 0 <= i < listed.len() implies (spec_layer_match(
                        (#[trigger] listed[i]).name,
                        prefix,
                    ) ==> spec_layer_index(listed[i].name, prefix) <= u32::MAX) by {
                        let (fw, iw) = choose|fw: int, iw: int|
                            0 <= fw < nv.len() && 0 <= iw < nv[fw]@.len() && (
                            #[trigger] listed[i]) == (LocAbs {
                                file_idx: fw,
                                name: nv[fw]@[iw]@,
                            });
                        assert(files@[fw].bytes is Owned);
                        assert(name_views(nv[fw]@)[iw] == listed[i].name);
                        assert(name_views(nv[fw]@).contains(listed[i].name));
                        assert(st_names_of(owned_bytes(files@[fw].bytes)).unwrap().contains(
                            listed[i].name,
                        ));
                    }
                    assert(indices_representable(listed, prefix));
                    assert(false);
                }
            }
            Err(e)
        },
    }
}

/// The manifest record for one written chunk: the plan's identity and
/// range, the written size, the content digest, and no remote address.
pub fn chunk_entry(plan: &ChunkPlan, bytes: u64, sha256: String) -> (c: ManifestChunk)
    ensures
        c.id@ == plan.id@,
        c.filename@ == plan.filename@,
        c.layer_start == plan.layer_start,
        c.layer_end == plan.layer_end,
        c.bytes == bytes,
        c.sha256@ == sha256@,
        c.url@ == Seq::<char>::empty(),
{
    ManifestChunk {
        id: plan.id.clone(),
        filename: plan.filename.clone(),
        layer_start: plan.layer_start,
        layer_end: plan.layer_end,
        bytes,
        sha256,
        url: String::new(),
    }
}

/// Assembles the manifest for a finished run: the model identifier, the
/// fixed version and dtype labels, the chunk window size as the minimum
/// runnable depth, and the accumulated chunk records.
pub fn build_manifest(model_id: String, layers_per_chunk: u32, chunks: Vec<ManifestChunk>) -> (m:
    ModelManifest)
    ensures
        m.model_id@ == model_id@,
        m.version@ == "1.0.0"@,
        m.dtype@ == "auto"@,
        m.min_runnable_depth == layers_per_chunk,
        m.chunks@ == chunks@,
{
    ModelManifest {
        model_id,
        version: "1.0.0".to_owned(),
        dtype: "auto".to_owned(),
        min_runnable_depth: layers_per_chunk,
        chunks,
    }
}

} // verus!
