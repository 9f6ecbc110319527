//! Selection of the tensor naming rules for a checkpoint.
//!
//! An input directory may carry an optional descriptor file declaring the
//! model family.  A family whose name contains "qwen" (in any case) picks
//! the Qwen layer pattern; any other family, and a missing declaration,
//! falls back to the same default pattern, so unknown checkpoints are
//! still split rather than rejected.  A descriptor that is present but
//! not valid JSON is a fatal error.

use vstd::prelude::*;
use vstd::string::StrSliceExecFns;

use crate::classify::LayerPattern;
use crate::error::ShardError;

verus! {

/// The naming rules chosen for one run.
#[derive(Debug)]
pub struct ModelRules {
    /// The declared model family, when the descriptor held one.
    pub model_type: Option<String>,
    /// The layer pattern the classifier will use.
    pub pattern: LayerPattern,
}

/// The default layer-name prefix.
pub open spec fn spec_default_prefix() -> Seq<char> {
    "model.layers."@
}

/// The layer pattern used when no other family is recognized.
pub fn default_layer_pattern() -> (p: LayerPattern)
    ensures
        p.prefix@ == spec_default_prefix(),
{
    LayerPattern { prefix: "model.layers.".to_owned() }
}

/// Whether the four characters at `i` spell "qwen" in any case.
pub open spec fn qwen_at(s: Seq<char>, i: int) -> bool {
    &&& 0 <= i
    &&& i + 4 <= s.len()
    &&& (s[i] == 'q' || s[i] == 'Q')
    &&& (s[i + 1] == 'w' || s[i + 1] == 'W')
    &&& (s[i + 2] == 'e' || s[i + 2] == 'E')
    &&& (s[i + 3] == 'n' || s[i + 3] == 'N')
}

/// Whether a model family name contains "qwen", ignoring case.
pub open spec fn spec_is_qwen_family(s: Seq<char>) -> bool {
    exists|i: int| qwen_at(s, i)
}

/// Whether a declared model family belongs to the Qwen series.
pub fn is_qwen_family(model_type: &str) -> (r: bool)
    ensures
        r == spec_is_qwen_family(model_type@),
{
    let ghost s = model_type@;
    let n = model_type.unicode_len();
    if n < 4 {
        return false;
    }
    let mut i: usize = 0;
    while i <= n - 4
        invariant
            4 <= n,
            0 <= i <= n - 3,
            n == s.len(),
            s == model_type@,
            forall|j: int| 0 <= j < i ==> !qwen_at(s, j),
        decreases n - i,
    {
        let c0 = model_type.get_char(i);
        let c1 = model_type.get_char(i + 1);
        let c2 = model_type.get_char(i + 2);
        let c3 = model_type.get_char(i + 3);
        if (c0 == 'q' || c0 == 'Q') && (c1 == 'w' || c1 == 'W') && (c2 == 'e' || c2 == 'E') && (
        c3 == 'n' || c3 == 'N') {
            assert(qwen_at(s, i as int));
            return true;
        }
        i += 1;
    }
    proof {
        assert forall|j: int| !qwen_at(s, j) by {
            if 0 <= j < i {
            } else if j + 4 > s.len() {
            }
        }
    }
    false
}

/// What extracting a top-level string field from a JSON document yields:
/// an error when the text is not valid JSON, otherwise the field's value
/// when it is present and holds a string.
pub uninterp spec fn json_field_of(raw: Seq<char>, key: Seq<char>) -> Result<
    Option<Seq<char>>,
    (),
>;

/// Whether the named field of the document is the string `v`.
pub open spec fn json_field_is(raw: Seq<char>, key: Seq<char>, v: Seq<char>) -> bool {
    json_field_of(raw, key) == Ok::<Option<Seq<char>>, ()>(Some(v))
}

/// Whether the document is valid JSON but carries no such string field.
pub open spec fn json_field_absent(raw: Seq<char>, key: Seq<char>) -> bool {
    json_field_of(raw, key) == Ok::<Option<Seq<char>>, ()>(None)
}

/// Relies on serde_json::from_str, serde_json::Value::get and
/// serde_json::Value::as_str: parses a JSON document and reads the named
/// top-level field as a string, failing exactly when the document itself
/// does not parse.
#[verifier::external_body]
fn json_string_field(raw: &str, key: &str) -> (r: Result<Option<String>, ShardError>)
    ensures
        r is Err <==> json_field_of(raw@, key@) is Err,
        r is Err ==> r->Err_0 is BadDescriptor,
        r is Ok && r->Ok_0 is Some ==> json_field_is(raw@, key@, r->Ok_0->0@),
        r is Ok && r->Ok_0 is None ==> json_field_absent(raw@, key@),
{
    match serde_json::from_str::<serde_json::Value>(raw) {
        Ok(doc) => Ok(doc.get(key).and_then(|f| f.as_str()).map(|s| s.to_string())),
        Err(_) => Err(ShardError::BadDescriptor),
    }
}

/// Picks the layer pattern for a declared model family.
///
/// Only the Qwen family's pattern is implemented; every other family, and
/// a missing declaration, falls back to the same default, so that new
/// checkpoints fail open toward the base chunk instead of failing the run.
pub fn pattern_for_family(family: Option<&String>) -> (p: LayerPattern)
    ensures
        p.prefix@ == spec_default_prefix(),
{
    match family {
        Some(name) => {
            if is_qwen_family(name.as_str()) {
                default_layer_pattern()
            } else {
                default_layer_pattern()
            }
        },
        None => default_layer_pattern(),
    }
}

/// Resolves the naming rules from the descriptor file's text, when the
/// input directory held one.
///
/// A missing descriptor is not an error; a descriptor that is not valid
/// JSON is.  A well-formed descriptor contributes its "model_type" field.
pub fn rules_from_config(config: Option<&str>) -> (r: Result<ModelRules, ShardError>)
    ensures
        r is Err <==> (config matches Some(raw) && json_field_of(raw@, "model_type"@) is Err),
        r matches Err(e) ==> e is BadDescriptor,
        r matches Ok(rules) ==> rules.pattern.prefix@ == spec_default_prefix(),
        r matches Ok(rules) ==> (config is None ==> rules.model_type is None),
        config matches Some(raw) ==> (r matches Ok(rules) ==> (rules.model_type matches Some(s)
            ==> json_field_is(raw@, "model_type"@, s@))),
        config matches Some(raw) ==> (r matches Ok(rules) ==> (rules.model_type is None
            ==> json_field_absent(raw@, "model_type"@))),
{
    match config {
        None => Ok(ModelRules { model_type: None, pattern: default_layer_pattern() }),
        Some(raw) => {
            match json_string_field(raw, "model_type") {
                Err(e) => Err(e),
                Ok(model_type) => {
                    let pattern = pattern_for_family(model_type.as_ref());
                    Ok(ModelRules { model_type, pattern })
                },
            }
        },
    }
}

} // verus!
