//! Deterministic grouping of classified tensors into chunk plans.
//!
//! The base tensors always form the first chunk.  Layer tensors are
//! grouped into consecutive windows of `layers_per_chunk` layers starting
//! at layer 0; a window that received no tensors produces no chunk.

use vstd::prelude::*;
use vstd::string::StringExecFns;

use crate::classify::{spec_classify, TensorClass, TensorLocation};
use crate::text::{spec_decimal, u32_to_string};

verus! {

/// Mathematical image of a `TensorLocation`.
pub struct LocAbs {
    /// Index of the source file.
    pub file_idx: int,
    /// The tensor name.
    pub name: Seq<char>,
}

impl View for TensorLocation {
    type V = LocAbs;

    open spec fn view(&self) -> LocAbs {
        LocAbs { file_idx: self.file_idx as int, name: self.name@ }
    }
}

/// The outcome of classifying every discovered tensor.
#[derive(Debug)]
pub struct Classification {
    /// Locations of the base tensors, in discovery order.
    pub base: Vec<TensorLocation>,
    /// Locations of the layer tensors with their layer index, in
    /// discovery order.
    pub layers: Vec<(u32, TensorLocation)>,
    /// The largest layer index seen, 0 when there are no layer tensors.
    pub max_layer: u32,
}

impl Classification {
    /// Every recorded layer index is within the recorded maximum.
    pub open spec fn wf(&self) -> bool {
        forall|j: int|
            0 <= j < self.layers@.len() ==> (#[trigger] self.layers@[j]).0 <= self.max_layer
    }
}

/// One chunk the pipeline has decided to produce.
#[derive(Debug)]
pub struct ChunkPlan {
    /// Chunk identifier, `"base"` or `"layers_{start}-{end}"`.
    pub id: String,
    /// Output file name: the identifier plus the container extension.
    pub filename: String,
    /// First layer index covered (0 for the base chunk).
    pub layer_start: u32,
    /// Last layer index covered, inclusive (0 for the base chunk).
    pub layer_end: u32,
    /// The tensors assigned to this chunk.
    pub locations: Vec<TensorLocation>,
}

/// Mathematical image of a `ChunkPlan`.
pub struct PlanAbs {
    /// The chunk identifier.
    pub id: Seq<char>,
    /// The output file name.
    pub filename: Seq<char>,
    /// First layer index covered.
    pub layer_start: int,
    /// Last layer index covered, inclusive.
    pub layer_end: int,
    /// The assigned tensor locations.
    pub locs: Seq<LocAbs>,
}

impl View for ChunkPlan {
    type V = PlanAbs;

    open spec fn view(&self) -> PlanAbs {
        PlanAbs {
            id: self.id@,
            filename: self.filename@,
            layer_start: self.layer_start as int,
            layer_end: self.layer_end as int,
            locs: locs_abs(self.locations@),
        }
    }
}

/// The images of a sequence of locations.
pub open spec fn locs_abs(s: Seq<TensorLocation>) -> Seq<LocAbs> {
    s.map_values(|l: TensorLocation| l@)
}

/// The images of a sequence of plans.
pub open spec fn plans_abs(s: Seq<ChunkPlan>) -> Seq<PlanAbs> {
    s.map_values(|p: ChunkPlan| p@)
}

/// The locations among the first `j` layer entries that belong to layer
/// `l`, in order.
pub open spec fn layer_locs_upto(layers: Seq<(u32, TensorLocation)>, l: int, j: int) -> Seq<
    LocAbs,
>
    decreases j,
{
    if j <= 0 {
        Seq::empty()
    } else {
        layer_locs_upto(layers, l, j - 1) + if layers[j - 1].0 == l {
            seq![layers[j - 1].1@]
        } else {
            Seq::empty()
        }
    }
}

/// The locations that belong to layer `l`, in discovery order.
pub open spec fn layer_locs(layers: Seq<(u32, TensorLocation)>, l: int) -> Seq<LocAbs> {
    layer_locs_upto(layers, l, layers.len() as int)
}

/// The locations of layers `ws..=we`, ordered by layer and then by
/// discovery.
pub open spec fn range_locs(layers: Seq<(u32, TensorLocation)>, ws: int, we: int) -> Seq<LocAbs>
    decreases we + 1 - ws,
{
    if ws > we {
        Seq::empty()
    } else {
        range_locs(layers, ws, we - 1) + layer_locs(layers, we)
    }
}

/// The inclusive upper bound of the layer window starting at `ws`: `k`
/// layers, clipped at the largest layer index.
pub open spec fn spec_window_end(ws: int, k: int, max_layer: int) -> int {
    if ws + k - 1 <= max_layer {
        ws + k - 1
    } else {
        max_layer
    }
}

/// The identifier of the chunk covering layers `ws..=we`.
pub open spec fn spec_chunk_id(ws: int, we: int) -> Seq<char> {
    "layers_"@ + spec_decimal(ws) + "-"@ + spec_decimal(we)
}

/// The file name for a chunk identifier.
pub open spec fn spec_chunk_filename(id: Seq<char>) -> Seq<char> {
    id + ".safetensors"@
}

/// The plan entry for the window covering layers `ws..=we`.
pub open spec fn window_plan_abs(
    layers: Seq<(u32, TensorLocation)>,
    ws: int,
    we: int,
) -> PlanAbs {
    PlanAbs {
        id: spec_chunk_id(ws, we),
        filename: spec_chunk_filename(spec_chunk_id(ws, we)),
        layer_start: ws,
        layer_end: we,
        locs: range_locs(layers, ws, we),
    }
}

/// The plan entries contributed by windows number `w` and later, skipping
/// windows that received no tensors.
pub open spec fn spec_layer_plans(
    layers: Seq<(u32, TensorLocation)>,
    max_layer: int,
    k: int,
    w: int,
) -> Seq<PlanAbs>
    recommends
        k >= 1,
        0 <= w,
    decreases max_layer / k + 1 - w
        when k >= 1 && 0 <= w
{
    if !(k >= 1 && 0 <= w) {
        Seq::empty()
    } else if w > max_layer / k {
        Seq::empty()
    } else {
        let ws = w * k;
        let we = spec_window_end(ws, k, max_layer);
        let rest = spec_layer_plans(layers, max_layer, k, w + 1);
        if range_locs(layers, ws, we).len() > 0 {
            seq![window_plan_abs(layers, ws, we)] + rest
        } else {
            rest
        }
    }
}

/// The plan entry for the base chunk.
pub open spec fn spec_base_plan(base: Seq<TensorLocation>) -> PlanAbs {
    PlanAbs {
        id: "base"@,
        filename: "base.safetensors"@,
        layer_start: 0,
        layer_end: 0,
        locs: locs_abs(base),
    }
}

/// The whole plan: the base chunk, then one chunk per non-empty layer
/// window, in ascending window order.
pub open spec fn spec_plan(
    base: Seq<TensorLocation>,
    layers: Seq<(u32, TensorLocation)>,
    max_layer: int,
    k: int,
) -> Seq<PlanAbs> {
    seq![spec_base_plan(base)] + spec_layer_plans(layers, max_layer, k, 0)
}

/// Law: for any window size and any maximum layer index, every layer
/// index up to the maximum lies inside exactly one window — the one
/// whose number is the index divided by the window size — and no window
/// reaches past the maximum.
#[verifier::spinoff_prover]
pub proof fn lemma_windows_partition(k: int, max_layer: int, l: int)
    requires
        k >= 1,
        0 <= l <= max_layer,
    ensures
        (l / k) * k <= l <= spec_window_end((l / k) * k, k, max_layer),
        spec_window_end((l / k) * k, k, max_layer) <= max_layer,
        forall|w: int|
            0 <= w && w != l / k ==> !(#[trigger] (w * k) <= l <= spec_window_end(
                w * k,
                k,
                max_layer,
            )),
        0 <= l / k <= max_layer / k,
{
    vstd::arithmetic::div_mod::lemma_fundamental_div_mod(l, k);
    vstd::arithmetic::div_mod::lemma_mod_bound(l, k);
    vstd::arithmetic::div_mod::lemma_div_pos_is_pos(l, k);
    assert(l == k * (l / k) + l % k);
    assert(k * (l / k) == (l / k) * k) by (nonlinear_arith);
    assert(0 <= l % k < k);
    assert((l / k) * k <= l);
    assert(l <= (l / k) * k + (k - 1));
    vstd::arithmetic::div_mod::lemma_div_is_ordered(l, max_layer, k);
    assert forall|w: int|
        0 <= w && w != l / k implies !(#[trigger] (w * k) <= l <= spec_window_end(
        w * k,
        k,
        max_layer,
    )) by {
        if w * k <= l <= spec_window_end(w * k, k, max_layer) {
            // Then l sits between w*k and w*k + k - 1, which forces w
            // to be l's own window number.
            vstd::arithmetic::div_mod::lemma_fundamental_div_mod_converse(l, k, w, l - w * k);
        }
    }
}

/// Law: a window that received no tensors contributes no plan entry,
/// a window that received some contributes exactly one, and the entries
/// stand in ascending window order with the windows around an empty one
/// unaffected.
pub proof fn lemma_empty_windows_skipped(
    layers: Seq<(u32, TensorLocation)>,
    max_layer: int,
    k: int,
    w: int,
)
    requires
        k >= 1,
        0 <= w,
    ensures
        forall|i: int|
            0 <= i < spec_layer_plans(layers, max_layer, k, w).len() ==> (
            #[trigger] spec_layer_plans(layers, max_layer, k, w)[i]).locs.len() > 0,
        forall|i: int|
            0 <= i < spec_layer_plans(layers, max_layer, k, w).len() ==> (
            #[trigger] spec_layer_plans(layers, max_layer, k, w)[i]).layer_start >= w * k,
        forall|i: int, j: int|
            0 <= i < j < spec_layer_plans(layers, max_layer, k, w).len() ==> (
            #[trigger] spec_layer_plans(layers, max_layer, k, w)[i]).layer_start < (
            #[trigger] spec_layer_plans(layers, max_layer, k, w)[j]).layer_start,
        forall|v: int|
            w <= v <= max_layer / k && range_locs(
                layers,
                #[trigger] (v * k),
                spec_window_end(v * k, k, max_layer),
            ).len() > 0 ==> (exists|i: int|
                0 <= i < spec_layer_plans(layers, max_layer, k, w).len() && (
                #[trigger] spec_layer_plans(layers, max_layer, k, w)[i]) == window_plan_abs(
                    layers,
                    v * k,
                    spec_window_end(v * k, k, max_layer),
                )),
    decreases max_layer / k + 1 - w,
{
    if w > max_layer / k {
        return ;
    }
    let plans = spec_layer_plans(layers, max_layer, k, w);
    let rest = spec_layer_plans(layers, max_layer, k, w + 1);
    let ws = w * k;
    let we = spec_window_end(ws, k, max_layer);
    lemma_empty_windows_skipped(layers, max_layer, k, w + 1);
    assert((w + 1) * k == w * k + k) by (nonlinear_arith);
    assert forall|v: int|
        w <= v <= max_layer / k && range_locs(
            layers,
            #[trigger] (v * k),
            spec_window_end(v * k, k, max_layer),
        ).len() > 0 implies (exists|i: int|
        0 <= i < plans.len() && (#[trigger] plans[i]) == window_plan_abs(
            layers,
            v * k,
            spec_window_end(v * k, k, max_layer),
        )) by {
        if v == w {
            assert(plans[0] == window_plan_abs(layers, ws, we));
        } else {
            let p = window_plan_abs(layers, v * k, spec_window_end(v * k, k, max_layer));
            let i = choose|i: int| 0 <= i < rest.len() && (#[trigger] rest[i]) == p;
            if range_locs(layers, ws, we).len() > 0 {
                assert(plans[i + 1] == p);
            } else {
                assert(plans[i] == p);
            }
        }
    }
}

/// A location's image appears among a layer's locations exactly when one
/// of the entries up to `j` put it there.
proof fn lemma_layer_locs_source(
    layers: Seq<(u32, TensorLocation)>,
    l: int,
    j: int,
    v: LocAbs,
)
    requires
        0 <= j <= layers.len(),
        layer_locs_upto(layers, l, j).contains(v),
    ensures
        exists|e: int| 0 <= e < j && (#[trigger] layers[e]).0 == l && layers[e].1@ == v,
    decreases j,
{
    if j > 0 {
        let prev = layer_locs_upto(layers, l, j - 1);
        let cur = layer_locs_upto(layers, l, j);
        let idx = choose|idx: int| 0 <= idx < cur.len() && cur[idx] == v;
        if idx < prev.len() {
            assert(prev.contains(v));
            lemma_layer_locs_source(layers, l, j - 1, v);
        } else {
            assert(layers[j - 1].0 == l && layers[j - 1].1@ == v);
        }
    }
}

/// An entry of layer `l` appears among that layer's locations.
proof fn lemma_layer_locs_member(layers: Seq<(u32, TensorLocation)>, l: int, j: int, e: int)
    requires
        0 <= e < j <= layers.len(),
        layers[e].0 == l,
    ensures
        layer_locs_upto(layers, l, j).contains(layers[e].1@),
    decreases j,
{
    if e == j - 1 {
        let cur = layer_locs_upto(layers, l, j);
        assert(cur[cur.len() - 1] == layers[e].1@);
    } else {
        lemma_layer_locs_member(layers, l, j - 1, e);
        let prev = layer_locs_upto(layers, l, j - 1);
        let cur = layer_locs_upto(layers, l, j);
        let idx = choose|idx: int| 0 <= idx < prev.len() && prev[idx] == layers[e].1@;
        assert(cur[idx] == layers[e].1@);
    }
}

/// A location's image appears among a range's locations exactly when one
/// of the entries with a layer in the range put it there.
proof fn lemma_range_locs_source(
    layers: Seq<(u32, TensorLocation)>,
    ws: int,
    we: int,
    v: LocAbs,
)
    requires
        range_locs(layers, ws, we).contains(v),
    ensures
        exists|e: int|
            0 <= e < layers.len() && ws <= (#[trigger] layers[e]).0 <= we && layers[e].1@ == v,
    decreases we + 1 - ws,
{
    let cur = range_locs(layers, ws, we);
    let prev = range_locs(layers, ws, we - 1);
    let idx = choose|idx: int| 0 <= idx < cur.len() && cur[idx] == v;
    if idx < prev.len() {
        assert(prev.contains(v));
        lemma_range_locs_source(layers, ws, we - 1, v);
    } else {
        assert(layer_locs(layers, we).contains(v));
        lemma_layer_locs_source(layers, we, layers.len() as int, v);
    }
}

/// An entry with a layer inside the range appears among the range's
/// locations.
proof fn lemma_range_locs_member(layers: Seq<(u32, TensorLocation)>, ws: int, we: int, e: int)
    requires
        0 <= e < layers.len(),
        ws <= layers[e].0 <= we,
    ensures
        range_locs(layers, ws, we).contains(layers[e].1@),
    decreases we + 1 - ws,
{
    let cur = range_locs(layers, ws, we);
    let prev = range_locs(layers, ws, we - 1);
    if layers[e].0 == we {
        lemma_layer_locs_member(layers, we, layers.len() as int, e);
        let part = layer_locs(layers, we);
        let idx = choose|idx: int| 0 <= idx < part.len() && part[idx] == layers[e].1@;
        assert(cur[prev.len() + idx] == layers[e].1@);
    } else {
        lemma_range_locs_member(layers, ws, we - 1, e);
        let idx = choose|idx: int| 0 <= idx < prev.len() && prev[idx] == layers[e].1@;
        assert(cur[idx] == layers[e].1@);
    }
}

/// A classification assigns every name one layer: the layer index is a
/// function of the name, so two layer entries whose locations agree
/// carry the same index.  This is the premise under which a location
/// can only ever appear in one window.
pub proof fn lemma_classified_layers_consistent(
    layers: Seq<(u32, TensorLocation)>,
    prefix: Seq<char>,
)
    requires
        forall|j: int|
            0 <= j < layers.len() ==> spec_classify((#[trigger] layers[j]).1.name@, prefix)
                == TensorClass::Layer(layers[j].0),
    ensures
        forall|a: int, b: int|
            0 <= a < layers.len() && 0 <= b < layers.len() && (#[trigger] layers[a]).1@ == (
            #[trigger] layers[b]).1@ ==> layers[a].0 == layers[b].0,
{
    assert forall|a: int, b: int|
        0 <= a < layers.len() && 0 <= b < layers.len() && (#[trigger] layers[a]).1@ == (
        #[trigger] layers[b]).1@ implies layers[a].0 == layers[b].0 by {
        assert(layers[a].1@.name == layers[b].1@.name);
        assert(layers[a].1.name@ == layers[b].1.name@);
    }
}

/// Law: a tensor classified into a layer is assigned to exactly one
/// layer window — the window containing its layer — provided each
/// location carries one layer, as classification guarantees.
pub proof fn lemma_location_in_one_window(
    layers: Seq<(u32, TensorLocation)>,
    k: int,
    max_layer: int,
    e: int,
)
    requires
        k >= 1,
        0 <= e < layers.len(),
        layers[e].0 <= max_layer,
        forall|a: int, b: int|
            0 <= a < layers.len() && 0 <= b < layers.len() && (#[trigger] layers[a]).1@ == (
            #[trigger] layers[b]).1@ ==> layers[a].0 == layers[b].0,
    ensures
        range_locs(
            layers,
            (layers[e].0 as int / k) * k,
            spec_window_end((layers[e].0 as int / k) * k, k, max_layer),
        ).contains(layers[e].1@),
        forall|w: int|
            0 <= w && w != layers[e].0 as int / k ==> !range_locs(
                layers,
                #[trigger] (w * k),
                spec_window_end(w * k, k, max_layer),
            ).contains(layers[e].1@),
{
    let l = layers[e].0 as int;
    lemma_windows_partition(k, max_layer, l);
    lemma_range_locs_member(layers, (l / k) * k, spec_window_end((l / k) * k, k, max_layer), e);
    assert forall|w: int|
        0 <= w && w != l / k implies !range_locs(
        layers,
        #[trigger] (w * k),
        spec_window_end(w * k, k, max_layer),
    ).contains(layers[e].1@) by {
        if range_locs(layers, w * k, spec_window_end(w * k, k, max_layer)).contains(
            layers[e].1@,
        ) {
            lemma_range_locs_source(
                layers,
                w * k,
                spec_window_end(w * k, k, max_layer),
                layers[e].1@,
            );
            let e2 = choose|e2: int|
                0 <= e2 < layers.len() && w * k <= (#[trigger] layers[e2]).0
                    <= spec_window_end(w * k, k, max_layer) && layers[e2].1@ == layers[e].1@;
            assert(layers[e2].0 == layers[e].0);
        }
    }
}

/// Law: a tensor classified as a base tensor appears in no layer
/// window's location list: the windows only draw from the layer entries,
/// and a name classifies one way.
pub proof fn lemma_base_location_in_no_window(
    layers: Seq<(u32, TensorLocation)>,
    prefix: Seq<char>,
    v: LocAbs,
    ws: int,
    we: int,
)
    requires
        forall|j: int|
            0 <= j < layers.len() ==> spec_classify((#[trigger] layers[j]).1.name@, prefix)
                == TensorClass::Layer(layers[j].0),
        spec_classify(v.name, prefix) == TensorClass::Base,
    ensures
        !range_locs(layers, ws, we).contains(v),
{
    if range_locs(layers, ws, we).contains(v) {
        lemma_range_locs_source(layers, ws, we, v);
        let e = choose|e: int|
            0 <= e < layers.len() && ws <= (#[trigger] layers[e]).0 <= we && layers[e].1@ == v;
        assert(layers[e].1@.name == v.name);
        assert(layers[e].1.name@ == v.name);
    }
}

/// All locations of a plan's entries, in plan order.
pub open spec fn plan_locs(plans: Seq<PlanAbs>) -> Seq<LocAbs>
    decreases plans.len(),
{
    if plans.len() == 0 {
        Seq::empty()
    } else {
        plans[0].locs + plan_locs(plans.drop_first())
    }
}

/// The images of all layer entries' locations.
pub open spec fn layer_entry_locs(layers: Seq<(u32, TensorLocation)>) -> Seq<LocAbs> {
    layers.map_values(|p: (u32, TensorLocation)| p.1@)
}

/// A layer range can be cut at any point.
proof fn lemma_range_locs_split(layers: Seq<(u32, TensorLocation)>, a: int, b: int, c: int)
    requires
        a - 1 <= b <= c,
    ensures
        range_locs(layers, a, c) == range_locs(layers, a, b) + range_locs(layers, b + 1, c),
    decreases c - b,
{
    if b == c {
        assert(range_locs(layers, b + 1, c) =~= Seq::<LocAbs>::empty());
        assert(range_locs(layers, a, c) =~= range_locs(layers, a, b) + range_locs(
            layers,
            b + 1,
            c,
        ));
    } else {
        lemma_range_locs_split(layers, a, b, c - 1);
        assert(range_locs(layers, a, c) =~= range_locs(layers, a, b) + range_locs(
            layers,
            b + 1,
            c,
        ));
    }
}

/// One more layer entry leaves the locations of the earlier entries
/// unchanged.
proof fn lemma_layer_locs_upto_push(
    layers: Seq<(u32, TensorLocation)>,
    p: (u32, TensorLocation),
    l: int,
    j: int,
)
    requires
        0 <= j <= layers.len(),
    ensures
        layer_locs_upto(layers.push(p), l, j) == layer_locs_upto(layers, l, j),
    decreases j,
{
    if j > 0 {
        lemma_layer_locs_upto_push(layers, p, l, j - 1);
        assert(layers.push(p)[j - 1] == layers[j - 1]);
    }
}

/// One more layer entry adds its location to exactly its own layer.
proof fn lemma_layer_locs_push(
    layers: Seq<(u32, TensorLocation)>,
    p: (u32, TensorLocation),
    l: int,
)
    ensures
        layer_locs(layers.push(p), l) == layer_locs(layers, l) + (if p.0 == l {
            seq![p.1@]
        } else {
            Seq::<LocAbs>::empty()
        }),
{
    let lp = layers.push(p);
    lemma_layer_locs_upto_push(layers, p, l, layers.len() as int);
    assert(lp[lp.len() - 1] == p);
    assert(layer_locs(lp, l) == layer_locs_upto(lp, l, lp.len() - 1) + (if p.0 == l {
        seq![p.1@]
    } else {
        Seq::<LocAbs>::empty()
    }));
}

/// With no layer entries, every range is empty.
proof fn lemma_range_locs_no_entries(a: int, b: int)
    ensures
        range_locs(Seq::<(u32, TensorLocation)>::empty(), a, b).len() == 0,
    decreases b + 1 - a,
{
    if a <= b {
        lemma_range_locs_no_entries(a, b - 1);
    }
}

/// One more layer entry adds its location to a range exactly when its
/// layer lies inside.
#[verifier::spinoff_prover]
proof fn lemma_range_locs_push_multiset(
    layers: Seq<(u32, TensorLocation)>,
    p: (u32, TensorLocation),
    a: int,
    b: int,
)
    ensures
        range_locs(layers.push(p), a, b).to_multiset() == (if a <= p.0 <= b {
            range_locs(layers, a, b).to_multiset().insert(p.1@)
        } else {
            range_locs(layers, a, b).to_multiset()
        }),
    decreases b + 1 - a,
{
    broadcast use vstd::seq_lib::group_to_multiset_ensures;
    broadcast use vstd::multiset::group_multiset_axioms;

    let lp = layers.push(p);
    if a > b {
        assert(range_locs(lp, a, b) =~= range_locs(layers, a, b));
    } else {
        lemma_range_locs_push_multiset(layers, p, a, b - 1);
        lemma_layer_locs_push(layers, p, b);
        let old_prefix = range_locs(layers, a, b - 1).to_multiset();
        let old_here = layer_locs(layers, b).to_multiset();
        vstd::seq_lib::lemma_multiset_commutative(
            range_locs(lp, a, b - 1),
            layer_locs(lp, b),
        );
        vstd::seq_lib::lemma_multiset_commutative(
            range_locs(layers, a, b - 1),
            layer_locs(layers, b),
        );
        assert(range_locs(layers, a, b) == range_locs(layers, a, b - 1) + layer_locs(
            layers,
            b,
        ));
        assert(range_locs(lp, a, b) == range_locs(lp, a, b - 1) + layer_locs(lp, b));
        vstd::seq_lib::lemma_multiset_commutative(
            range_locs(lp, a, b - 1),
            layer_locs(lp, b),
        );
        assert(range_locs(layers, a, b).to_multiset() == old_prefix.add(old_here));
        if p.0 == b {
            vstd::seq_lib::lemma_multiset_commutative(
                layer_locs(layers, b),
                seq![p.1@],
            );
            assert(seq![p.1@] =~= Seq::<LocAbs>::empty().push(p.1@));
            assert(Seq::<LocAbs>::empty().to_multiset()
                =~= vstd::multiset::Multiset::<LocAbs>::empty());
            assert(seq![p.1@].to_multiset() =~= vstd::multiset::Multiset::<LocAbs>::empty().insert(
                p.1@,
            ));
            assert(layer_locs(lp, b) == layer_locs(layers, b) + seq![p.1@]);
            assert(layer_locs(lp, b).to_multiset() == old_here.add(seq![p.1@].to_multiset()));
            assert(layer_locs(lp, b).to_multiset() =~= old_here.insert(p.1@));
            assert(range_locs(lp, a, b).to_multiset() == old_prefix.add(
                old_here.insert(p.1@),
            ));
            assert(range_locs(lp, a, b).to_multiset() =~= old_prefix.add(old_here).insert(
                p.1@,
            ));
        } else {
            assert(layer_locs(lp, b) =~= layer_locs(layers, b));
            if a <= p.0 <= b - 1 {
                assert(range_locs(lp, a, b - 1).to_multiset() == old_prefix.insert(p.1@));
                assert(range_locs(lp, a, b).to_multiset() == old_prefix.insert(p.1@).add(
                    old_here,
                ));
                assert(range_locs(lp, a, b).to_multiset() =~= old_prefix.add(old_here).insert(
                    p.1@,
                ));
            } else {
                assert(range_locs(lp, a, b).to_multiset() == old_prefix.add(old_here));
            }
        }
    }
}

/// The layers 0 through the maximum together hold every layer entry's
/// location, each exactly as often as it was classified.
proof fn lemma_range_locs_all(layers: Seq<(u32, TensorLocation)>, max_layer: int)
    requires
        0 <= max_layer,
        forall|j: int| 0 <= j < layers.len() ==> (#[trigger] layers[j]).0 <= max_layer,
    ensures
        range_locs(layers, 0, max_layer).to_multiset() == layer_entry_locs(layers).to_multiset(),
    decreases layers.len(),
{
    broadcast use vstd::seq_lib::group_to_multiset_ensures;

    if layers.len() == 0 {
        lemma_range_locs_no_entries(0, max_layer);
        assert(layers =~= Seq::<(u32, TensorLocation)>::empty());
        assert(layer_entry_locs(layers) =~= Seq::<LocAbs>::empty());
        assert(range_locs(layers, 0, max_layer).to_multiset() =~= layer_entry_locs(
            layers,
        ).to_multiset());
    } else {
        let prev = layers.drop_last();
        let p = layers.last();
        assert(layers =~= prev.push(p));
        assert forall|j: int| 0 <= j < prev.len() implies (#[trigger] prev[j]).0
            <= max_layer by {
            assert(prev[j] == layers[j]);
        }
        lemma_range_locs_all(prev, max_layer);
        lemma_range_locs_push_multiset(prev, p, 0, max_layer);
        assert(layer_entry_locs(layers) =~= layer_entry_locs(prev).push(p.1@));
    }
}

/// The plan entries from window `w` on hold exactly the locations of the
/// layers from that window's start through the maximum.
proof fn lemma_layer_plans_locs(
    layers: Seq<(u32, TensorLocation)>,
    max_layer: int,
    k: int,
    w: int,
)
    requires
        k >= 1,
        0 <= w,
        0 <= max_layer,
    ensures
        plan_locs(spec_layer_plans(layers, max_layer, k, w)) == (if w * k <= max_layer {
            range_locs(layers, w * k, max_layer)
        } else {
            Seq::<LocAbs>::empty()
        }),
    decreases max_layer / k + 1 - w,
{
    if w > max_layer / k {
        // Past the window count the start lies past the maximum.
        vstd::arithmetic::div_mod::lemma_fundamental_div_mod(max_layer, k);
        vstd::arithmetic::div_mod::lemma_mod_bound(max_layer, k);
        vstd::arithmetic::mul::lemma_mul_inequality(max_layer / k + 1, w, k);
        assert((max_layer / k + 1) * k == (max_layer / k) * k + k) by (nonlinear_arith);
        assert(w * k > max_layer);
    } else {
        let ws = w * k;
        let we = spec_window_end(ws, k, max_layer);
        let rest = spec_layer_plans(layers, max_layer, k, w + 1);
        lemma_layer_plans_locs(layers, max_layer, k, w + 1);
        // The start of this window is within the layers.
        vstd::arithmetic::div_mod::lemma_fundamental_div_mod(max_layer, k);
        vstd::arithmetic::div_mod::lemma_mod_bound(max_layer, k);
        vstd::arithmetic::mul::lemma_mul_inequality(w, max_layer / k, k);
        assert(ws <= max_layer);
        assert((w + 1) * k == w * k + k) by (nonlinear_arith);
        assert((w + 1) * k == ws + k);
        lemma_range_locs_split(layers, ws, we, max_layer);
        if range_locs(layers, ws, we).len() > 0 {
            let head = window_plan_abs(layers, ws, we);
            assert(spec_layer_plans(layers, max_layer, k, w) == seq![head] + rest);
            assert((seq![head] + rest)[0] == head);
            assert((seq![head] + rest).drop_first() =~= rest);
            assert(plan_locs(seq![head] + rest) == head.locs + plan_locs(rest));
        } else {
            assert(range_locs(layers, ws, we) =~= Seq::<LocAbs>::empty());
            assert(range_locs(layers, ws, max_layer) =~= range_locs(
                layers,
                we + 1,
                max_layer,
            ));
        }
    }
}

/// Law: over the whole plan, every classified tensor is assigned exactly
/// once: the chunks' location lists together are the base locations plus
/// the layer locations, counted with multiplicity — no tensor is
/// dropped, and none is written to two chunks.
pub proof fn lemma_plan_covers(
    base: Seq<TensorLocation>,
    layers: Seq<(u32, TensorLocation)>,
    max_layer: int,
    k: int,
)
    requires
        k >= 1,
        0 <= max_layer,
        forall|j: int| 0 <= j < layers.len() ==> (#[trigger] layers[j]).0 <= max_layer,
    ensures
        plan_locs(spec_plan(base, layers, max_layer, k)).to_multiset() == locs_abs(
            base,
        ).to_multiset().add(layer_entry_locs(layers).to_multiset()),
{
    broadcast use vstd::seq_lib::group_to_multiset_ensures;

    let bp = spec_base_plan(base);
    let lp = spec_layer_plans(layers, max_layer, k, 0);
    assert((seq![bp] + lp)[0] == bp);
    assert((seq![bp] + lp).drop_first() =~= lp);
    assert(plan_locs(spec_plan(base, layers, max_layer, k)) == bp.locs + plan_locs(lp));
    lemma_layer_plans_locs(layers, max_layer, k, 0);
    assert(0 * k == 0);
    assert(plan_locs(lp) == range_locs(layers, 0, max_layer));
    lemma_range_locs_all(layers, max_layer);
    vstd::seq_lib::lemma_multiset_commutative(locs_abs(base), plan_locs(lp));
    assert(bp.locs == locs_abs(base));
    assert(plan_locs(spec_plan(base, layers, max_layer, k)).to_multiset() == locs_abs(
        base,
    ).to_multiset().add(plan_locs(lp).to_multiset()));
    assert(plan_locs(lp).to_multiset() == layer_entry_locs(layers).to_multiset());
}

/// A copy of one location.
fn clone_location(l: &TensorLocation) -> (r: TensorLocation)
    ensures
        r@ == l@,
{
    TensorLocation { file_idx: l.file_idx, name: l.name.clone() }
}

/// A copy of a list of locations.
fn clone_locations(ls: &Vec<TensorLocation>) -> (r: Vec<TensorLocation>)
    ensures
        locs_abs(r@) == locs_abs(ls@),
{
    let mut r: Vec<TensorLocation> = Vec::new();
    let mut i: usize = 0;
    while i < ls.len()
        invariant
            0 <= i <= ls@.len(),
            locs_abs(r@) == locs_abs(ls@.subrange(0, i as int)),
        decreases ls@.len() - i,
    {
        let ghost prev = r@;
        r.push(clone_location(&ls[i]));
        proof {
            assert(locs_abs(r@) =~= locs_abs(prev).push(ls@[i as int]@));
            assert(locs_abs(ls@.subrange(0, i + 1)) =~= locs_abs(ls@.subrange(0, i as int)).push(
                ls@[i as int]@,
            ));
        }
        i += 1;
    }
    proof {
        assert(ls@.subrange(0, ls@.len() as int) =~= ls@);
    }
    r
}

/// The tensors of layers `ws..=we`, ordered by layer and then by
/// discovery.
fn collect_window(layers: &Vec<(u32, TensorLocation)>, ws: u32, we: u32) -> (r: Vec<
    TensorLocation,
>)
    requires
        ws <= we,
    ensures
        locs_abs(r@) == range_locs(layers@, ws as int, we as int),
{
    let mut r: Vec<TensorLocation> = Vec::new();
    let mut l: u64 = ws as u64;
    proof {
        assert(range_locs(layers@, ws as int, ws - 1) =~= Seq::<LocAbs>::empty());
        assert(locs_abs(r@) =~= Seq::<LocAbs>::empty());
    }
    while l <= we as u64
        invariant
            ws as u64 <= l <= we as u64 + 1,
            locs_abs(r@) == range_locs(layers@, ws as int, l - 1),
        decreases we as u64 + 1 - l,
    {
        let mut j: usize = 0;
        while j < layers.len()
            invariant
                0 <= j <= layers@.len(),
                ws as u64 <= l <= we as u64,
                locs_abs(r@) == range_locs(layers@, ws as int, l - 1) + layer_locs_upto(
                    layers@,
                    l as int,
                    j as int,
                ),
            decreases layers@.len() - j,
        {
            let ghost prev = r@;
            if layers[j].0 as u64 == l {
                r.push(clone_location(&layers[j].1));
                proof {
                    assert(locs_abs(r@) =~= locs_abs(prev).push(layers@[j as int].1@));
                }
            }
            proof {
                assert(layer_locs_upto(layers@, l as int, j + 1) == layer_locs_upto(
                    layers@,
                    l as int,
                    j as int,
                ) + if layers@[j as int].0 == l as int {
                    seq![layers@[j as int].1@]
                } else {
                    Seq::<LocAbs>::empty()
                });
                assert(locs_abs(r@) =~= range_locs(layers@, ws as int, l - 1) + layer_locs_upto(
                    layers@,
                    l as int,
                    j + 1,
                ));
            }
            j += 1;
        }
        proof {
            assert(range_locs(layers@, ws as int, l as int) == range_locs(
                layers@,
                ws as int,
                l - 1,
            ) + layer_locs(layers@, l as int));
        }
        l += 1;
    }
    r
}

/// The chunk identifier for the window `ws..=we`.
fn chunk_id(ws: u32, we: u32) -> (r: String)
    ensures
        r@ == spec_chunk_id(ws as int, we as int),
{
    let mut id = "layers_".to_owned();
    let start_str = u32_to_string(ws);
    id.append(start_str.as_str());
    id.append("-");
    let end_str = u32_to_string(we);
    id.append(end_str.as_str());
    id
}

/// The output file name for a chunk identifier.
fn chunk_filename(id: &String) -> (r: String)
    ensures
        r@ == spec_chunk_filename(id@),
{
    let mut f = id.clone();
    f.append(".safetensors");
    f
}

/// Turns a classification into the ordered list of chunks to produce:
/// the base chunk first, then one chunk per layer window that received
/// at least one tensor.
pub fn plan_chunks(c: &Classification, layers_per_chunk: u32) -> (r: Vec<ChunkPlan>)
    requires
        layers_per_chunk >= 1,
        c.wf(),
    ensures
        plans_abs(r@) == spec_plan(
            c.base@,
            c.layers@,
            c.max_layer as int,
            layers_per_chunk as int,
        ),
{
    let ghost layers = c.layers@;
    let ghost max_layer = c.max_layer as int;
    let ghost k_int = layers_per_chunk as int;

    let mut r: Vec<ChunkPlan> = Vec::new();
    r.push(
        ChunkPlan {
            id: "base".to_owned(),
            filename: "base.safetensors".to_owned(),
            layer_start: 0,
            layer_end: 0,
            locations: clone_locations(&c.base),
        },
    );
    proof {
        assert(plans_abs(r@) =~= seq![spec_base_plan(c.base@)]);
    }

    let k = layers_per_chunk;
    let mut ws: u64 = 0;
    let ghost mut w: int = 0;
    while ws <= c.max_layer as u64
        invariant
            layers_per_chunk >= 1,
            c.wf(),
            layers == c.layers@,
            max_layer == c.max_layer as int,
            k_int == layers_per_chunk as int,
            k == layers_per_chunk,
            0 <= w,
            ws <= c.max_layer as u64 ==> ws as int == w * k_int,
            ws > c.max_layer as u64 ==> w * k_int > max_layer,
            plans_abs(r@) + spec_layer_plans(layers, max_layer, k_int, w) == spec_plan(
                c.base@,
                layers,
                max_layer,
                k_int,
            ),
        decreases max_layer + 1 - ws,
    {
        proof {
            // This window's number is within the window count.
            vstd::arithmetic::div_mod::lemma_fundamental_div_mod_converse(
                ws as int,
                k_int,
                w,
                0,
            );
            vstd::arithmetic::div_mod::lemma_div_is_ordered(ws as int, max_layer, k_int);
        }
        let we: u32 = {
            let cand: u64 = ws + (k as u64) - 1;
            if cand <= c.max_layer as u64 {
                cand as u32
            } else {
                c.max_layer
            }
        };
        assert(we as int == spec_window_end(ws as int, k_int, max_layer));
        let ws32: u32 = ws as u32;
        let locations = collect_window(&c.layers, ws32, we);

        let ghost prev = r@;
        if locations.len() > 0 {
            let id = chunk_id(ws32, we);
            let filename = chunk_filename(&id);
            r.push(
                ChunkPlan { id, filename, layer_start: ws32, layer_end: we, locations },
            );
            proof {
                assert(plans_abs(r@) =~= plans_abs(prev).push(
                    window_plan_abs(layers, ws as int, we as int),
                ));
            }
        }
        proof {
            assert(spec_layer_plans(layers, max_layer, k_int, w) == (if range_locs(
                layers,
                ws as int,
                we as int,
            ).len() > 0 {
                seq![window_plan_abs(layers, ws as int, we as int)] + spec_layer_plans(
                    layers,
                    max_layer,
                    k_int,
                    w + 1,
                )
            } else {
                spec_layer_plans(layers, max_layer, k_int, w + 1)
            }));
            assert(plans_abs(r@) + spec_layer_plans(layers, max_layer, k_int, w + 1)
                =~= spec_plan(c.base@, layers, max_layer, k_int));
        }
        let ghost old_ws = ws as int;
        ws = (we as u64) + 1;
        proof {
            let old_w = w;
            w = w + 1;
            // When the window was clipped, the loop is about to exit and the
            // next window would start past the last layer either way.
            assert((old_w + 1) * k_int == old_w * k_int + k_int) by (nonlinear_arith);
            assert(w * k_int == old_ws + k_int);
        }
    }
    proof {
        // Past the last layer, no windows remain.
        if w <= max_layer / k_int {
            vstd::arithmetic::div_mod::lemma_fundamental_div_mod(max_layer, k_int);
            vstd::arithmetic::div_mod::lemma_mod_bound(max_layer, k_int);
            vstd::arithmetic::mul::lemma_mul_inequality(w, max_layer / k_int, k_int);
            assert(false);
        }
        assert(spec_layer_plans(layers, max_layer, k_int, w) =~= Seq::<PlanAbs>::empty());
        assert(plans_abs(r@) =~= spec_plan(c.base@, layers, max_layer, k_int));
    }
    r
}

} // verus!
