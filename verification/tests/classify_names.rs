use tensor_sharder::classify::{classify_checked, classify_tensor, LayerPattern, TensorClass};
use tensor_sharder::rules::default_layer_pattern;

fn layer_re() -> LayerPattern {
    default_layer_pattern()
}

#[test]
fn classify_embed_tokens_as_base() {
    let re = layer_re();
    assert!(matches!(
        classify_tensor("model.embed_tokens.weight", &re),
        TensorClass::Base
    ));
}

#[test]
fn classify_final_norm_as_base() {
    let re = layer_re();
    assert!(matches!(classify_tensor("model.norm.weight", &re), TensorClass::Base));
}

#[test]
fn classify_lm_head_as_base() {
    let re = layer_re();
    assert!(matches!(classify_tensor("lm_head.weight", &re), TensorClass::Base));
}

#[test]
fn classify_layer_self_attn() {
    let re = layer_re();
    match classify_tensor("model.layers.5.self_attn.q_proj.weight", &re) {
        TensorClass::Layer(n) => assert_eq!(n, 5),
        TensorClass::Base => panic!("expected Layer"),
    }
}

#[test]
fn classify_layer_mlp() {
    let re = layer_re();
    match classify_tensor("model.layers.12.mlp.gate_proj.weight", &re) {
        TensorClass::Layer(n) => assert_eq!(n, 12),
        TensorClass::Base => panic!("expected Layer"),
    }
}

#[test]
fn classify_layer_layernorm() {
    let re = layer_re();
    match classify_tensor("model.layers.0.input_layernorm.weight", &re) {
        TensorClass::Layer(n) => assert_eq!(n, 0),
        TensorClass::Base => panic!("expected Layer"),
    }
}

#[test]
fn classify_unknown_tensor_as_base() {
    let re = layer_re();
    assert!(matches!(
        classify_tensor("some.random.tensor.name", &re),
        TensorClass::Base
    ));
}

#[test]
fn classify_needs_digit_and_dot_after_prefix() {
    let re = layer_re();
    // No digits after the prefix.
    assert!(matches!(classify_tensor("model.layers.weight", &re), TensorClass::Base));
    // Digits not followed by a dot.
    assert!(matches!(classify_tensor("model.layers.12", &re), TensorClass::Base));
    assert!(matches!(classify_tensor("model.layers.12x.weight", &re), TensorClass::Base));
    // The prefix alone.
    assert!(matches!(classify_tensor("model.layers.", &re), TensorClass::Base));
}

#[test]
fn classify_checked_rejects_oversized_layer_index() {
    let re = layer_re();
    assert!(classify_checked("model.layers.99999999999999999999.weight", &re).is_none());
    // The largest index that still fits is accepted.
    match classify_checked("model.layers.4294967295.weight", &re) {
        Some(TensorClass::Layer(n)) => assert_eq!(n, u32::MAX),
        other => panic!("expected Layer, got {:?}", other),
    }
}

#[test]
fn classify_leading_zeros_parse_as_value() {
    let re = layer_re();
    match classify_tensor("model.layers.007.mlp.up_proj.weight", &re) {
        TensorClass::Layer(n) => assert_eq!(n, 7),
        TensorClass::Base => panic!("expected Layer"),
    }
}
