//! Element-type labels of the container format.
//!
//! The pipeline never interprets tensor values, so an element type is
//! carried as its container-format label (`"F32"`, `"BF16"`, ...).  The
//! only thing the pipeline reads from a label is the element width, which
//! it needs to check that a tensor's byte length matches its shape before
//! handing it to the codec.

use vstd::prelude::*;

use crate::text::str_eq;

verus! {

/// The width in bits of one element of the labelled type, or `None` for
/// a label the container format does not know.
pub open spec fn spec_dtype_bits(label: Seq<char>) -> Option<int> {
    if label == "F4"@ {
        Some(4)
    } else if label == "F6_E2M3"@ || label == "F6_E3M2"@ {
        Some(6)
    } else if label == "BOOL"@ || label == "U8"@ || label == "I8"@ || label == "F8_E5M2"@
        || label == "F8_E4M3"@ || label == "F8_E8M0"@ || label == "F8_E4M3FNUZ"@ || label
        == "F8_E5M2FNUZ"@ {
        Some(8)
    } else if label == "I16"@ || label == "U16"@ || label == "F16"@ || label == "BF16"@ {
        Some(16)
    } else if label == "I32"@ || label == "U32"@ || label == "F32"@ {
        Some(32)
    } else if label == "I64"@ || label == "U64"@ || label == "F64"@ || label == "C64"@ {
        Some(64)
    } else {
        None
    }
}

/// The width in bits of one element of the labelled type.
pub fn dtype_bits(label: &str) -> (r: Option<usize>)
    ensures
        r matches Some(b) ==> spec_dtype_bits(label@) == Some(b as int),
        r is None ==> spec_dtype_bits(label@) is None,
{
    if str_eq(label, "F4") {
        Some(4)
    } else if str_eq(label, "F6_E2M3") || str_eq(label, "F6_E3M2") {
        Some(6)
    } else if str_eq(label, "BOOL") || str_eq(label, "U8") || str_eq(label, "I8") || str_eq(
        label,
        "F8_E5M2",
    ) || str_eq(label, "F8_E4M3") || str_eq(label, "F8_E8M0") || str_eq(label, "F8_E4M3FNUZ")
        || str_eq(label, "F8_E5M2FNUZ") {
        Some(8)
    } else if str_eq(label, "I16") || str_eq(label, "U16") || str_eq(label, "F16") || str_eq(
        label,
        "BF16",
    ) {
        Some(16)
    } else if str_eq(label, "I32") || str_eq(label, "U32") || str_eq(label, "F32") {
        Some(32)
    } else if str_eq(label, "I64") || str_eq(label, "U64") || str_eq(label, "F64") || str_eq(
        label,
        "C64",
    ) {
        Some(64)
    } else {
        None
    }
}

} // verus!
