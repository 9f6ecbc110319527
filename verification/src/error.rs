//! The failure modes of a sharding run.  Every error is fatal: the run
//! stops at the first one, and each variant carries the context a caller
//! needs to report it.

use vstd::prelude::*;
use vstd::string::StringExecFns;

verus! {

/// Why a sharding run failed.
#[derive(Debug)]
pub enum ShardError {
    /// The input directory held no container files.
    NoSourceFiles,
    /// A tensor name matched the layer pattern but its captured index does
    /// not fit in `u32`.
    LayerIndexOverflow {
        /// The offending tensor name.
        name: String,
    },
    /// A source file's container header failed to parse.
    HeaderParse {
        /// The offending file.
        path: String,
    },
    /// A classified tensor was missing from the file whose header declared it.
    TensorNotFound {
        /// The missing tensor's name.
        name: String,
        /// The file that was expected to hold it.
        path: String,
    },
    /// A tensor's shape and element type do not match its byte length.
    InvalidTensor {
        /// The offending tensor's name.
        name: String,
    },
    /// Two tensors in one chunk carry the same name; the container format
    /// indexes tensors by name, so such a chunk cannot be written.
    DuplicateTensorName {
        /// The name carried twice.
        name: String,
    },
    /// The container codec refused to serialize a chunk.
    SerializeFailed,
    /// The model descriptor file was present but not well-formed.
    BadDescriptor,
    /// The assembled manifest failed validation.
    InvalidManifest {
        /// What the validation reported.
        message: String,
    },
}

impl ShardError {
    /// A human-readable description of the failure, carrying the
    /// offending path, tensor name, or validation message.
    pub fn describe(&self) -> (r: String)
        ensures
            self is NoSourceFiles ==> r@
                == "no .safetensors files found in the input directory"@,
            self matches ShardError::LayerIndexOverflow { name } ==> r@
                == "layer index out of range in tensor name: "@ + name@,
            self matches ShardError::HeaderParse { path } ==> r@
                == "failed to parse safetensors header: "@ + path@,
            self matches ShardError::TensorNotFound { name, path } ==> r@ == "tensor '"@
                + name@ + "' not found in "@ + path@,
            self matches ShardError::InvalidTensor { name } ==> r@ == "tensor '"@ + name@
                + "' has an invalid shape, dtype, or byte length"@,
            self matches ShardError::DuplicateTensorName { name } ==> r@
                == "duplicate tensor name in one chunk: "@ + name@,
            self is SerializeFailed ==> r@ == "safetensors serialization failed"@,
            self is BadDescriptor ==> r@ == "failed to parse the model descriptor file"@,
            self matches ShardError::InvalidManifest { message } ==> r@
                == "manifest validation failed: "@ + message@,
    {
        match self {
            ShardError::NoSourceFiles => {
                "no .safetensors files found in the input directory".to_owned()
            },
            ShardError::LayerIndexOverflow { name } => {
                let mut m = "layer index out of range in tensor name: ".to_owned();
                m.append(name.as_str());
                m
            },
            ShardError::HeaderParse { path } => {
                let mut m = "failed to parse safetensors header: ".to_owned();
                m.append(path.as_str());
                m
            },
            ShardError::TensorNotFound { name, path } => {
                let mut m = "tensor '".to_owned();
                m.append(name.as_str());
                m.append("' not found in ");
                m.append(path.as_str());
                m
            },
            ShardError::InvalidTensor { name } => {
                let mut m = "tensor '".to_owned();
                m.append(name.as_str());
                m.append("' has an invalid shape, dtype, or byte length");
                m
            },
            ShardError::DuplicateTensorName { name } => {
                let mut m = "duplicate tensor name in one chunk: ".to_owned();
                m.append(name.as_str());
                m
            },
            ShardError::SerializeFailed => "safetensors serialization failed".to_owned(),
            ShardError::BadDescriptor => "failed to parse the model descriptor file".to_owned(),
            ShardError::InvalidManifest { message } => {
                let mut m = "manifest validation failed: ".to_owned();
                m.append(message.as_str());
                m
            },
        }
    }
}

} // verus!
