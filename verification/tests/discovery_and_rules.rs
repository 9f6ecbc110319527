use tensor_sharder::discover::discover_sources;
use tensor_sharder::error::ShardError;
use tensor_sharder::rules::{is_qwen_family, rules_from_config};

#[test]
fn discovery_keeps_only_container_files_sorted() {
    let names = vec![
        "model-00002-of-00002.safetensors".to_string(),
        "config.json".to_string(),
        "model-00001-of-00002.safetensors".to_string(),
        "tokenizer.model".to_string(),
        "notes.txt".to_string(),
    ];
    let found = discover_sources(names).unwrap();
    assert_eq!(
        found,
        vec![
            "model-00001-of-00002.safetensors".to_string(),
            "model-00002-of-00002.safetensors".to_string(),
        ]
    );
}

#[test]
fn discovery_with_no_container_files_is_fatal() {
    let names = vec!["config.json".to_string(), "README.md".to_string()];
    match discover_sources(names) {
        Err(ShardError::NoSourceFiles) => {}
        other => panic!("expected NoSourceFiles, got {:?}", other),
    }
}

#[test]
fn discovery_rejects_bare_extension() {
    // A file named exactly ".safetensors" has no stem and is not a
    // container file.
    let names = vec![".safetensors".to_string()];
    assert!(discover_sources(names).is_err());
}

#[test]
fn qwen_family_detection_ignores_case() {
    assert!(is_qwen_family("qwen2"));
    assert!(is_qwen_family("Qwen2.5"));
    assert!(is_qwen_family("my-QWEN-variant"));
    assert!(!is_qwen_family("llama"));
    assert!(!is_qwen_family("qwe"));
    assert!(!is_qwen_family(""));
}

#[test]
fn rules_default_without_descriptor() {
    let rules = rules_from_config(None).unwrap();
    assert!(rules.model_type.is_none());
    assert_eq!(rules.pattern.prefix, "model.layers.");
}

#[test]
fn rules_read_model_type_from_descriptor() {
    let rules = rules_from_config(Some("{\"model_type\": \"qwen2\", \"num_layers\": 28}"))
        .unwrap();
    assert_eq!(rules.model_type.as_deref(), Some("qwen2"));
    assert_eq!(rules.pattern.prefix, "model.layers.");
}

#[test]
fn rules_tolerate_descriptor_without_model_type() {
    let rules = rules_from_config(Some("{\"num_layers\": 28}")).unwrap();
    assert!(rules.model_type.is_none());
    assert_eq!(rules.pattern.prefix, "model.layers.");
}

#[test]
fn rules_unrecognized_family_falls_back_to_default() {
    let rules = rules_from_config(Some("{\"model_type\": \"llama\"}")).unwrap();
    assert_eq!(rules.model_type.as_deref(), Some("llama"));
    assert_eq!(rules.pattern.prefix, "model.layers.");
}

#[test]
fn rules_malformed_descriptor_is_fatal() {
    match rules_from_config(Some("not json at all {")) {
        Err(ShardError::BadDescriptor) => {}
        other => panic!("expected BadDescriptor, got {:?}", other),
    }
}
