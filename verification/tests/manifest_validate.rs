use tensor_sharder::manifest::{ManifestChunk, ModelManifest};

fn sample_chunk() -> ManifestChunk {
    ManifestChunk {
        id: "base".to_string(),
        filename: "base.safetensors".to_string(),
        layer_start: 0,
        layer_end: 0,
        bytes: 1024,
        sha256: "abc123".to_string(),
        url: String::new(),
    }
}

fn sample_manifest() -> ModelManifest {
    ModelManifest {
        model_id: "Qwen/Qwen2.5-3B".to_string(),
        version: "1.0.0".to_string(),
        dtype: "auto".to_string(),
        min_runnable_depth: 4,
        chunks: vec![sample_chunk()],
    }
}

#[test]
fn validate_ok() {
    assert!(sample_manifest().validate().is_ok());
}

#[test]
fn validate_empty_chunks() {
    let mut m = sample_manifest();
    m.chunks.clear();
    assert!(m.validate().is_err());
}

#[test]
fn validate_zero_min_runnable_depth() {
    let mut m = sample_manifest();
    m.min_runnable_depth = 0;
    assert!(m.validate().is_err());
}

#[test]
fn validate_reports_which_rule_failed() {
    let mut empty = sample_manifest();
    empty.chunks.clear();
    assert_eq!(empty.validate().unwrap_err(), "chunks must not be empty");

    let mut zero_depth = sample_manifest();
    zero_depth.min_runnable_depth = 0;
    assert_eq!(zero_depth.validate().unwrap_err(), "min_runnable_depth must be > 0");
}

#[test]
fn validate_accepts_any_positive_depth() {
    let mut m = sample_manifest();
    m.min_runnable_depth = 1;
    assert!(m.validate().is_ok());
    m.min_runnable_depth = u32::MAX;
    assert!(m.validate().is_ok());
}
