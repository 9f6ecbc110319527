//! Classification of tensor names into base tensors and per-layer tensors.
//!
//! A name belongs to a layer when it consists of the active pattern's
//! prefix (e.g. `"model.layers."`), then one or more decimal digits, then
//! a dot, then anything; the digits are the layer index.  Every other
//! name, including names with no recognizable structure at all, is a base
//! tensor.

use vstd::prelude::*;
use vstd::string::StrSliceExecFns;

verus! {

/// Where one tensor lives: which source file, and under which name.
#[derive(Debug)]
pub struct TensorLocation {
    /// Index of the source file in the run's ordered file list.
    pub file_idx: usize,
    /// Full tensor name, e.g. `"model.layers.3.self_attn.q_proj.weight"`.
    pub name: String,
}

/// The class of one tensor name.
#[derive(Debug, Clone, Copy, PartialEq, Eq, Structural)]
pub enum TensorClass {
    /// Not tied to a layer: embeddings, final norm, output head, or any
    /// unrecognized name.
    Base,
    /// Tied to the layer with this index.
    Layer(u32),
}

/// The naming pattern for layer tensors: a fixed prefix followed by the
/// decimal layer index and a dot.
#[derive(Debug)]
pub struct LayerPattern {
    /// The prefix before the layer index.
    pub prefix: String,
}

/// Whether `c` is a decimal digit.
pub open spec fn is_digit_char(c: char) -> bool {
    c == '0' || c == '1' || c == '2' || c == '3' || c == '4' || c == '5' || c == '6' || c == '7'
        || c == '8' || c == '9'
}

/// The value of one decimal digit.
pub open spec fn digit_val(c: char) -> int {
    if c == '0' {
        0
    } else if c == '1' {
        1
    } else if c == '2' {
        2
    } else if c == '3' {
        3
    } else if c == '4' {
        4
    } else if c == '5' {
        5
    } else if c == '6' {
        6
    } else if c == '7' {
        7
    } else if c == '8' {
        8
    } else {
        9
    }
}

/// Whether `s` starts with `p`.
pub open spec fn spec_starts_with(s: Seq<char>, p: Seq<char>) -> bool {
    p.len() <= s.len() && s.subrange(0, p.len() as int) == p
}

/// The first position at or after `i` that does not hold a digit, or the
/// end of `s`.
pub open spec fn digit_run_end(s: Seq<char>, i: int) -> int
    recommends
        0 <= i <= s.len(),
    decreases s.len() - i,
{
    if i < s.len() && is_digit_char(s[i]) {
        digit_run_end(s, i + 1)
    } else {
        i
    }
}

/// The value of the decimal digits `s[i..e]`.
pub open spec fn digits_value(s: Seq<char>, i: int, e: int) -> int
    decreases e - i,
{
    if e <= i {
        0
    } else {
        digits_value(s, i, e - 1) * 10 + digit_val(s[e - 1])
    }
}

/// Whether `s` matches the layer pattern with prefix `p`: the prefix,
/// then at least one digit, then a dot.
pub open spec fn spec_layer_match(s: Seq<char>, p: Seq<char>) -> bool {
    let e = digit_run_end(s, p.len() as int);
    &&& spec_starts_with(s, p)
    &&& e > p.len()
    &&& e < s.len()
    &&& s[e] == '.'
}

/// The layer index captured by a matching name.
pub open spec fn spec_layer_index(s: Seq<char>, p: Seq<char>) -> int {
    digits_value(s, p.len() as int, digit_run_end(s, p.len() as int))
}

/// What `classify_tensor` returns for a name.
pub open spec fn spec_classify(s: Seq<char>, p: Seq<char>) -> TensorClass {
    if spec_layer_match(s, p) {
        TensorClass::Layer(spec_layer_index(s, p) as u32)
    } else {
        TensorClass::Base
    }
}

/// Extending the digit range to the right never decreases its value.
proof fn lemma_digits_value_monotonic(s: Seq<char>, i: int, j: int, e: int)
    requires
        i <= j <= e,
    ensures
        digits_value(s, i, j) <= digits_value(s, i, e),
        digits_value(s, i, j) >= 0,
    decreases e - i,
{
    if j < e {
        lemma_digits_value_monotonic(s, i, j, e - 1);
        lemma_digits_value_monotonic(s, i, i, e - 1);
    } else {
        if i < j {
            lemma_digits_value_monotonic(s, i, i, j - 1);
        }
    }
}

/// The digit run's end lies between its start and the end of the string,
/// and scanning can begin anywhere inside the run without moving it.
proof fn lemma_digit_run_end_bounds(s: Seq<char>, i: int)
    requires
        0 <= i <= s.len(),
    ensures
        i <= digit_run_end(s, i) <= s.len(),
    decreases s.len() - i,
{
    if i < s.len() && is_digit_char(s[i]) {
        lemma_digit_run_end_bounds(s, i + 1);
    }
}

/// A captured layer index is never negative: it is the value of a digit
/// run.
pub proof fn lemma_layer_index_nonneg(s: Seq<char>, p: Seq<char>)
    ensures
        spec_layer_index(s, p) >= 0,
{
    let i = p.len() as int;
    let e = digit_run_end(s, i);
    if e >= i {
        lemma_digits_value_monotonic(s, i, i, e);
    }
}

/// Whether `name` starts with `prefix`.
fn starts_with(name: &str, prefix: &str) -> (r: bool)
    ensures
        r == spec_starts_with(name@, prefix@),
{
    let p_len = prefix.unicode_len();
    let n_len = name.unicode_len();
    if p_len > n_len {
        return false;
    }
    let mut i: usize = 0;
    while i < p_len
        invariant
            0 <= i <= p_len,
            p_len == prefix@.len(),
            p_len <= n_len == name@.len(),
            forall|j: int| 0 <= j < i ==> name@[j] == prefix@[j],
        decreases p_len - i,
    {
        if name.get_char(i) != prefix.get_char(i) {
            assert(name@.subrange(0, p_len as int)[i as int] != prefix@[i as int]);
            return false;
        }
        i += 1;
    }
    assert(name@.subrange(0, p_len as int) =~= prefix@);
    true
}

/// Whether `c` is a decimal digit.
fn is_digit(c: char) -> (r: bool)
    ensures
        r == is_digit_char(c),
{
    c == '0' || c == '1' || c == '2' || c == '3' || c == '4' || c == '5' || c == '6' || c == '7'
        || c == '8' || c == '9'
}

/// The value of one digit.
fn digit_value(c: char) -> (r: u32)
    requires
        is_digit_char(c),
    ensures
        r == digit_val(c),
{
    if c == '0' {
        0
    } else if c == '1' {
        1
    } else if c == '2' {
        2
    } else if c == '3' {
        3
    } else if c == '4' {
        4
    } else if c == '5' {
        5
    } else if c == '6' {
        6
    } else if c == '7' {
        7
    } else if c == '8' {
        8
    } else {
        9
    }
}

/// Classifies a tensor name, reporting a captured layer index that does
/// not fit in `u32` as `None`.
///
/// The pipeline treats `None` as a fatal error: the pattern's capture is
/// meant to only ever produce representable indices.
pub fn classify_checked(name: &str, pattern: &LayerPattern) -> (r: Option<TensorClass>)
    ensures
        spec_layer_match(name@, pattern.prefix@) && spec_layer_index(name@, pattern.prefix@)
            <= u32::MAX ==> r == Some(spec_classify(name@, pattern.prefix@)),
        spec_layer_match(name@, pattern.prefix@) && spec_layer_index(name@, pattern.prefix@)
            > u32::MAX ==> r is None,
        !spec_layer_match(name@, pattern.prefix@) ==> r == Some(TensorClass::Base),
{
    let ghost s = name@;
    let ghost p = pattern.prefix@;
    if !starts_with(name, pattern.prefix.as_str()) {
        return Some(TensorClass::Base);
    }
    let n_len = name.unicode_len();
    let start = pattern.prefix.as_str().unicode_len();
    let ghost e = digit_run_end(s, start as int);

    // Scan the digit run, accumulating its value; every partial value is
    // bounded by the full run's value.
    let mut i: usize = start;
    let mut acc: u64 = 0;
    let mut overflow: bool = false;
    while i < n_len && is_digit(name.get_char(i))
        invariant
            start <= i <= n_len,
            n_len == s.len(),
            s == name@,
            p == pattern.prefix@,
            start == p.len(),
            digit_run_end(s, i as int) == e,
            !overflow ==> acc == digits_value(s, start as int, i as int) && acc <= u32::MAX,
            overflow ==> digits_value(s, start as int, i as int) > u32::MAX,
        decreases n_len - i,
    {
        proof {
            // One more digit keeps the run's end where it was.
            assert(digit_run_end(s, i + 1) == e);
            lemma_digits_value_monotonic(s, start as int, i as int, i + 1);
        }
        let d = digit_value(name.get_char(i));
        if overflow {
            proof {
                lemma_digits_value_monotonic(s, start as int, i as int, i + 1);
            }
        } else {
            acc = acc * 10 + (d as u64);
            if acc > (u32::MAX as u64) {
                overflow = true;
            }
        }
        i += 1;
    }
    proof {
        // The loop stopped at a non-digit or the end, so this is the run's end.
        assert(digit_run_end(s, i as int) == i);
    }
    if i == start {
        // No digit after the prefix: not a layer name.
        return Some(TensorClass::Base);
    }
    if i >= n_len || name.get_char(i) != '.' {
        return Some(TensorClass::Base);
    }
    proof {
        assert(spec_layer_match(s, p));
        lemma_digits_value_monotonic(s, start as int, start as int, e);
    }
    if overflow {
        None
    } else {
        Some(TensorClass::Layer(acc as u32))
    }
}

/// Classifies a tensor name against the active layer pattern.
///
/// Callers must rule out names whose captured index exceeds `u32`; the
/// pipeline itself uses `classify_checked` and treats such a name as a
/// fatal error.
pub fn classify_tensor(name: &str, pattern: &LayerPattern) -> (r: TensorClass)
    requires
        spec_layer_match(name@, pattern.prefix@) ==> spec_layer_index(name@, pattern.prefix@)
            <= u32::MAX,
    ensures
        r == spec_classify(name@, pattern.prefix@),
{
    match classify_checked(name, pattern) {
        Some(c) => c,
        None => {
            proof {
                assert(false);
            }
            TensorClass::Base
        },
    }
}

} // verus!

