use tensor_sharder::classify::TensorLocation;
use tensor_sharder::codec::OwnedTensor;
use tensor_sharder::digest::sha256_hex;
use tensor_sharder::error::ShardError;
use tensor_sharder::io::{build_chunk, load_tensors, serialize_tensors};
use tensor_sharder::manifest::ManifestChunk;
use tensor_sharder::plan::plan_chunks;
use tensor_sharder::rules::rules_from_config;
use tensor_sharder::shard::{build_manifest, chunk_entry, classify_names, classify_sources};
use tensor_sharder::source::{LoadedFile, SourceBytes};

fn clone_tensor(t: &OwnedTensor) -> OwnedTensor {
    OwnedTensor {
        name: t.name.clone(),
        dtype: t.dtype.clone(),
        shape: t.shape.clone(),
        data: t.data.clone(),
    }
}

fn f32_tensor(name: &str, shape: Vec<usize>, seed: u8) -> OwnedTensor {
    let elements: usize = shape.iter().product();
    let data: Vec<u8> = (0..elements * 4).map(|i| (i as u8).wrapping_add(seed)).collect();
    OwnedTensor { name: name.to_string(), dtype: "F32".to_string(), shape, data }
}

fn qwen_like_source() -> Vec<u8> {
    let mut tensors = vec![
        f32_tensor("model.embed_tokens.weight", vec![8, 4], 1),
        f32_tensor("model.norm.weight", vec![4], 2),
        f32_tensor("lm_head.weight", vec![8, 4], 3),
    ];
    for l in 0..8 {
        tensors.push(f32_tensor(
            &format!("model.layers.{}.input_layernorm.weight", l),
            vec![4],
            10 + l as u8,
        ));
    }
    serialize_tensors(&tensors).unwrap()
}

struct RunOutput {
    chunks: Vec<(String, Vec<u8>, usize)>,
    manifest: tensor_sharder::manifest::ModelManifest,
}

/// Drives the pipeline's decision stages over in-memory sources, the way
/// the binary drives them over mapped files.
fn run_pipeline(sources: Vec<Vec<u8>>, model_id: &str, layers_per_chunk: u32) -> RunOutput {
    let files: Vec<LoadedFile> = sources
        .into_iter()
        .enumerate()
        .map(|(i, bytes)| LoadedFile {
            path: format!("source-{}.safetensors", i),
            bytes: SourceBytes::Owned(bytes),
        })
        .collect();
    let rules = rules_from_config(None).unwrap();
    let classification = classify_sources(&files, &rules.pattern).unwrap();
    let plans = plan_chunks(&classification, layers_per_chunk);
    let mut chunks = Vec::new();
    let mut entries: Vec<ManifestChunk> = Vec::new();
    for plan in &plans {
        let (loaded, data) = build_chunk(&files, plan).unwrap();
        let digest = sha256_hex(&data);
        entries.push(chunk_entry(plan, data.len() as u64, digest));
        chunks.push((plan.filename.clone(), data, loaded.tensors.len()));
    }
    let manifest = build_manifest(model_id.to_string(), layers_per_chunk, entries);
    manifest.validate().map_err(|m| ShardError::InvalidManifest { message: m }).unwrap();
    RunOutput { chunks, manifest }
}

fn names_in(container: &[u8]) -> Vec<String> {
    // Read a chunk back through the pipeline's own classifier stage.
    let files = vec![LoadedFile {
        path: "chunk.safetensors".to_string(),
        bytes: SourceBytes::Owned(container.to_vec()),
    }];
    let rules = rules_from_config(None).unwrap();
    let c = classify_sources(&files, &rules.pattern).unwrap();
    let mut names: Vec<String> = c
        .base
        .iter()
        .map(|l| l.name.clone())
        .chain(c.layers.iter().map(|(_, l)| l.name.clone()))
        .collect();
    names.sort();
    names
}

#[test]
fn end_to_end_eight_layer_model_in_windows_of_four() {
    let out = run_pipeline(vec![qwen_like_source()], "X/Y", 4);

    assert_eq!(out.chunks.len(), 3);
    let (base_name, base_data, base_count) = &out.chunks[0];
    assert_eq!(base_name, "base.safetensors");
    assert_eq!(*base_count, 3);
    let mut expected_base =
        vec!["lm_head.weight".to_string(), "model.embed_tokens.weight".to_string(),
            "model.norm.weight".to_string()];
    expected_base.sort();
    assert_eq!(names_in(base_data), expected_base);

    let (first_name, first_data, first_count) = &out.chunks[1];
    assert_eq!(first_name, "layers_0-3.safetensors");
    assert_eq!(*first_count, 4);
    assert_eq!(names_in(first_data).len(), 4);

    let (second_name, second_data, second_count) = &out.chunks[2];
    assert_eq!(second_name, "layers_4-7.safetensors");
    assert_eq!(*second_count, 4);
    assert_eq!(names_in(second_data).len(), 4);

    let m = &out.manifest;
    assert_eq!(m.model_id, "X/Y");
    assert_eq!(m.min_runnable_depth, 4);
    assert_eq!(m.chunks.len(), 3);
    assert_eq!(m.chunks[0].id, "base");
    assert_eq!((m.chunks[0].layer_start, m.chunks[0].layer_end), (0, 0));
    assert_eq!(m.chunks[1].id, "layers_0-3");
    assert_eq!((m.chunks[1].layer_start, m.chunks[1].layer_end), (0, 3));
    assert_eq!(m.chunks[2].id, "layers_4-7");
    assert_eq!((m.chunks[2].layer_start, m.chunks[2].layer_end), (4, 7));
    for (entry, (_, data, _)) in m.chunks.iter().zip(out.chunks.iter()) {
        assert_eq!(entry.bytes, data.len() as u64);
        assert_eq!(entry.sha256, sha256_hex(data));
        assert!(entry.url.is_empty());
    }
}

#[test]
fn round_trip_preserves_tensor_bytes_shape_and_dtype() {
    let original = f32_tensor("model.layers.2.self_attn.q_proj.weight", vec![3, 5], 42);
    let container = serialize_tensors(&vec![
        clone_tensor(&original),
        f32_tensor("model.embed_tokens.weight", vec![2, 2], 7),
    ])
    .unwrap();

    let files = vec![LoadedFile {
        path: "one.safetensors".to_string(),
        bytes: SourceBytes::Owned(container),
    }];
    let locations = vec![TensorLocation {
        file_idx: 0,
        name: "model.layers.2.self_attn.q_proj.weight".to_string(),
    }];
    let loaded = load_tensors(&files, &locations).unwrap();
    assert_eq!(loaded.tensors.len(), 1);
    let got = &loaded.tensors[0];
    assert_eq!(got.name, original.name);
    assert_eq!(got.dtype, original.dtype);
    assert_eq!(got.shape, original.shape);
    assert_eq!(got.data, original.data);
    assert_eq!(loaded.bytes_read, original.data.len());
}

#[test]
fn digest_is_deterministic_across_writes() {
    let tensors = vec![
        f32_tensor("model.norm.weight", vec![4], 9),
        f32_tensor("model.embed_tokens.weight", vec![2, 4], 11),
    ];
    let again = vec![clone_tensor(&tensors[0]), clone_tensor(&tensors[1])];
    let first = serialize_tensors(&tensors).unwrap();
    let second = serialize_tensors(&again).unwrap();
    assert_eq!(first, second);
    assert_eq!(sha256_hex(&first), sha256_hex(&second));
}

#[test]
fn sparse_layers_produce_no_file_for_empty_windows() {
    // Layers 0 and 5 only, window size 2: no chunk for layers 2-3.
    let mut tensors = vec![f32_tensor("model.embed_tokens.weight", vec![2], 1)];
    tensors.push(f32_tensor("model.layers.0.input_layernorm.weight", vec![2], 2));
    tensors.push(f32_tensor("model.layers.5.input_layernorm.weight", vec![2], 3));
    let source = serialize_tensors(&tensors).unwrap();
    let out = run_pipeline(vec![source], "sparse/model", 2);
    let names: Vec<&str> = out.chunks.iter().map(|(n, _, _)| n.as_str()).collect();
    assert_eq!(names, vec![
        "base.safetensors",
        "layers_0-1.safetensors",
        "layers_4-5.safetensors",
    ]);
    assert_eq!(out.manifest.chunks.len(), 3);
}

#[test]
fn tensors_split_across_source_files_load_in_file_order() {
    let first = serialize_tensors(&vec![
        f32_tensor("model.embed_tokens.weight", vec![2], 1),
        f32_tensor("model.layers.0.a.weight", vec![2], 2),
    ])
    .unwrap();
    let second = serialize_tensors(&vec![f32_tensor("model.layers.1.a.weight", vec![2], 3)])
        .unwrap();
    let out = run_pipeline(vec![first, second], "two/files", 4);
    assert_eq!(out.chunks.len(), 2);
    let (_, layer_chunk, count) = &out.chunks[1];
    assert_eq!(*count, 2);
    assert_eq!(names_in(layer_chunk).len(), 2);
}

#[test]
fn header_parse_failure_is_fatal_and_names_the_file() {
    let files = vec![LoadedFile {
        path: "broken.safetensors".to_string(),
        bytes: SourceBytes::Owned(vec![1, 2, 3]),
    }];
    let rules = rules_from_config(None).unwrap();
    match classify_sources(&files, &rules.pattern) {
        Err(ShardError::HeaderParse { path }) => assert_eq!(path, "broken.safetensors"),
        other => panic!("expected HeaderParse, got {:?}", other),
    }
}

#[test]
fn missing_tensor_is_fatal_and_names_tensor_and_file() {
    let source = serialize_tensors(&vec![f32_tensor("model.norm.weight", vec![2], 1)]).unwrap();
    let files = vec![LoadedFile {
        path: "model.safetensors".to_string(),
        bytes: SourceBytes::Owned(source),
    }];
    let locations = vec![TensorLocation { file_idx: 0, name: "absent.weight".to_string() }];
    match load_tensors(&files, &locations) {
        Err(ShardError::TensorNotFound { name, path }) => {
            assert_eq!(name, "absent.weight");
            assert_eq!(path, "model.safetensors");
        }
        other => panic!("expected TensorNotFound, got {:?}", other),
    }
}

#[test]
fn malformed_tensor_is_rejected_before_serialization() {
    // Payload length does not match shape and element width.
    let bad = OwnedTensor {
        name: "model.norm.weight".to_string(),
        dtype: "F32".to_string(),
        shape: vec![4],
        data: vec![0u8; 10],
    };
    match serialize_tensors(&vec![bad]) {
        Err(ShardError::InvalidTensor { name }) => assert_eq!(name, "model.norm.weight"),
        other => panic!("expected InvalidTensor, got {:?}", other),
    }
    // An unknown element-type label is rejected the same way.
    let unknown = OwnedTensor {
        name: "model.norm.weight".to_string(),
        dtype: "F128".to_string(),
        shape: vec![1],
        data: vec![0u8; 16],
    };
    assert!(matches!(
        serialize_tensors(&vec![unknown]),
        Err(ShardError::InvalidTensor { .. })
    ));
}

#[test]
fn error_descriptions_name_their_context() {
    let e = ShardError::TensorNotFound {
        name: "a.weight".to_string(),
        path: "m.safetensors".to_string(),
    };
    let text = e.describe();
    assert!(text.contains("a.weight"));
    assert!(text.contains("m.safetensors"));
    assert!(!ShardError::NoSourceFiles.describe().is_empty());
    assert!(!ShardError::SerializeFailed.describe().is_empty());
}

#[test]
fn empty_base_chunk_is_still_written() {
    // A model with only layer tensors still produces a base chunk file,
    // holding no tensors.
    let source = serialize_tensors(&vec![f32_tensor(
        "model.layers.0.input_layernorm.weight",
        vec![2],
        1,
    )])
    .unwrap();
    let out = run_pipeline(vec![source], "only/layers", 4);
    assert_eq!(out.chunks[0].0, "base.safetensors");
    assert_eq!(out.chunks[0].2, 0);
    assert_eq!(names_in(&out.chunks[0].1).len(), 0);
}

#[test]
fn classify_names_partitions_every_listed_name() {
    let names_per_file = vec![
        vec![
            "model.embed_tokens.weight".to_string(),
            "model.layers.0.a.weight".to_string(),
        ],
        vec![
            "model.layers.3.b.weight".to_string(),
            "lm_head.weight".to_string(),
        ],
    ];
    let rules = rules_from_config(None).unwrap();
    let c = classify_names(&names_per_file, &rules.pattern).unwrap();
    assert_eq!(c.base.len(), 2);
    assert_eq!(c.base[0].name, "model.embed_tokens.weight");
    assert_eq!(c.base[0].file_idx, 0);
    assert_eq!(c.base[1].name, "lm_head.weight");
    assert_eq!(c.base[1].file_idx, 1);
    assert_eq!(c.layers.len(), 2);
    assert_eq!(c.layers[0].0, 0);
    assert_eq!(c.layers[1].0, 3);
    assert_eq!(c.layers[1].1.file_idx, 1);
    assert_eq!(c.max_layer, 3);
}

#[test]
fn classify_names_rejects_unrepresentable_index() {
    let names_per_file = vec![vec![
        "model.layers.99999999999999999999.weight".to_string(),
    ]];
    let rules = rules_from_config(None).unwrap();
    match classify_names(&names_per_file, &rules.pattern) {
        Err(ShardError::LayerIndexOverflow { name }) => {
            assert_eq!(name, "model.layers.99999999999999999999.weight");
        }
        other => panic!("expected LayerIndexOverflow, got {:?}", other),
    }
}

#[test]
fn oversized_header_is_a_serialization_failure() {
    // A tensor name so long that the container header would exceed the
    // codec's limit: the tensor itself is well-formed, so the failure is
    // the codec's own refusal.
    let huge_name = "a".repeat(110_000_000);
    let tensor = OwnedTensor {
        name: huge_name,
        dtype: "F32".to_string(),
        shape: vec![1],
        data: vec![0u8; 4],
    };
    assert!(matches!(
        serialize_tensors(&vec![tensor]),
        Err(ShardError::SerializeFailed)
    ));
}

#[test]
fn invalid_manifest_error_reports_the_validation_message() {
    let manifest = build_manifest("X/Y".to_string(), 4, Vec::new());
    let message = manifest.validate().unwrap_err();
    let err = ShardError::InvalidManifest { message };
    assert!(err.describe().contains("chunks must not be empty"));
}

#[test]
fn duplicate_tensor_names_in_one_chunk_are_rejected() {
    // Directly: two well-formed tensors with one name cannot be written.
    let tensors = vec![
        f32_tensor("model.norm.weight", vec![2], 1),
        f32_tensor("model.norm.weight", vec![4], 2),
    ];
    match serialize_tensors(&tensors) {
        Err(ShardError::DuplicateTensorName { name }) => {
            assert_eq!(name, "model.norm.weight");
        }
        other => panic!("expected DuplicateTensorName, got {:?}", other),
    }

    // Through the pipeline: two source files both declaring one tensor
    // name put two same-named tensors into the base chunk, which is
    // rejected at serialization rather than handed to the codec.
    let first = serialize_tensors(&vec![f32_tensor("model.norm.weight", vec![2], 1)]).unwrap();
    let second = serialize_tensors(&vec![f32_tensor("model.norm.weight", vec![2], 9)]).unwrap();
    let files = vec![
        LoadedFile {
            path: "a.safetensors".to_string(),
            bytes: SourceBytes::Owned(first),
        },
        LoadedFile {
            path: "b.safetensors".to_string(),
            bytes: SourceBytes::Owned(second),
        },
    ];
    let rules = rules_from_config(None).unwrap();
    let classification = classify_sources(&files, &rules.pattern).unwrap();
    let plans = plan_chunks(&classification, 4);
    let loaded = load_tensors(&files, &plans[0].locations).unwrap();
    assert_eq!(loaded.tensors.len(), 2);
    assert!(matches!(
        serialize_tensors(&loaded.tensors),
        Err(ShardError::DuplicateTensorName { .. })
    ));
}

#[test]
fn error_descriptions_are_exact() {
    assert_eq!(
        ShardError::NoSourceFiles.describe(),
        "no .safetensors files found in the input directory"
    );
    assert_eq!(
        ShardError::HeaderParse { path: "m.safetensors".to_string() }.describe(),
        "failed to parse safetensors header: m.safetensors"
    );
    assert_eq!(
        ShardError::TensorNotFound {
            name: "a.weight".to_string(),
            path: "m.safetensors".to_string(),
        }
        .describe(),
        "tensor 'a.weight' not found in m.safetensors"
    );
    assert_eq!(
        ShardError::DuplicateTensorName { name: "a.weight".to_string() }.describe(),
        "duplicate tensor name in one chunk: a.weight"
    );
    assert_eq!(
        ShardError::LayerIndexOverflow { name: "model.layers.9.x".to_string() }.describe(),
        "layer index out of range in tensor name: model.layers.9.x"
    );
    assert_eq!(
        ShardError::InvalidManifest { message: "why".to_string() }.describe(),
        "manifest validation failed: why"
    );
}
