use tensor_sharder::classify::TensorLocation;
use tensor_sharder::plan::{plan_chunks, Classification};

fn loc(file_idx: usize, name: &str) -> TensorLocation {
    TensorLocation { file_idx, name: name.to_string() }
}

fn layer_entry(layer: u32, name: &str) -> (u32, TensorLocation) {
    (layer, loc(0, name))
}

#[test]
fn plan_starts_with_base_chunk() {
    let c = Classification {
        base: vec![loc(0, "model.embed_tokens.weight")],
        layers: vec![],
        max_layer: 0,
    };
    let plans = plan_chunks(&c, 4);
    assert_eq!(plans.len(), 1);
    assert_eq!(plans[0].id, "base");
    assert_eq!(plans[0].filename, "base.safetensors");
    assert_eq!(plans[0].layer_start, 0);
    assert_eq!(plans[0].layer_end, 0);
    assert_eq!(plans[0].locations.len(), 1);
    assert_eq!(plans[0].locations[0].name, "model.embed_tokens.weight");
}

#[test]
fn plan_windows_cover_layers_without_gaps_or_overlaps() {
    // Eight layers, window size 4: windows 0-3 and 4-7.
    let layers: Vec<(u32, TensorLocation)> = (0..8)
        .map(|l| layer_entry(l, &format!("model.layers.{}.input_layernorm.weight", l)))
        .collect();
    let c = Classification { base: vec![], layers, max_layer: 7 };
    let plans = plan_chunks(&c, 4);
    assert_eq!(plans.len(), 3);
    assert_eq!(plans[1].id, "layers_0-3");
    assert_eq!(plans[1].filename, "layers_0-3.safetensors");
    assert_eq!((plans[1].layer_start, plans[1].layer_end), (0, 3));
    assert_eq!(plans[1].locations.len(), 4);
    assert_eq!(plans[2].id, "layers_4-7");
    assert_eq!((plans[2].layer_start, plans[2].layer_end), (4, 7));
    assert_eq!(plans[2].locations.len(), 4);
}

#[test]
fn plan_final_window_is_clipped_at_the_last_layer() {
    // Six layers, window size 4: the second window covers only 4-5.
    let layers: Vec<(u32, TensorLocation)> = (0..6)
        .map(|l| layer_entry(l, &format!("model.layers.{}.mlp.down_proj.weight", l)))
        .collect();
    let c = Classification { base: vec![], layers, max_layer: 5 };
    let plans = plan_chunks(&c, 4);
    assert_eq!(plans.len(), 3);
    assert_eq!(plans[2].id, "layers_4-5");
    assert_eq!((plans[2].layer_start, plans[2].layer_end), (4, 5));
    assert_eq!(plans[2].locations.len(), 2);
}

#[test]
fn plan_skips_windows_with_no_tensors() {
    // Layers 0 and 5 only, window size 2: windows 0-1 and 4-5 appear,
    // window 2-3 does not, and its absence leaves the others untouched.
    let layers = vec![
        layer_entry(0, "model.layers.0.input_layernorm.weight"),
        layer_entry(5, "model.layers.5.input_layernorm.weight"),
    ];
    let c = Classification { base: vec![], layers, max_layer: 5 };
    let plans = plan_chunks(&c, 2);
    assert_eq!(plans.len(), 3);
    assert_eq!(plans[1].id, "layers_0-1");
    assert_eq!(plans[1].locations.len(), 1);
    assert_eq!(plans[2].id, "layers_4-5");
    assert_eq!(plans[2].locations.len(), 1);
}

#[test]
fn plan_window_size_one_gives_one_chunk_per_layer() {
    let layers = vec![
        layer_entry(0, "model.layers.0.a"),
        layer_entry(1, "model.layers.1.a"),
        layer_entry(2, "model.layers.2.a"),
    ];
    let c = Classification { base: vec![], layers, max_layer: 2 };
    let plans = plan_chunks(&c, 1);
    assert_eq!(plans.len(), 4);
    assert_eq!(plans[1].id, "layers_0-0");
    assert_eq!(plans[2].id, "layers_1-1");
    assert_eq!(plans[3].id, "layers_2-2");
}

#[test]
fn plan_groups_a_window_by_layer_then_discovery_order() {
    // Entries arrive interleaved across layers; within the window they
    // are ordered by layer first, then by discovery.
    let layers = vec![
        layer_entry(1, "model.layers.1.a"),
        layer_entry(0, "model.layers.0.a"),
        layer_entry(1, "model.layers.1.b"),
        layer_entry(0, "model.layers.0.b"),
    ];
    let c = Classification { base: vec![], layers, max_layer: 1 };
    let plans = plan_chunks(&c, 2);
    assert_eq!(plans.len(), 2);
    let names: Vec<&str> = plans[1].locations.iter().map(|l| l.name.as_str()).collect();
    assert_eq!(
        names,
        vec!["model.layers.0.a", "model.layers.0.b", "model.layers.1.a", "model.layers.1.b"]
    );
}
