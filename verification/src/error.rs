//! The error taxonomy of the discovery engine.
use vstd::prelude::*;

use crate::abs_path::AbsPath;

verus! {

/// Everything that can go wrong across classification, resolution and
/// subprocess decoding.
#[derive(Debug)]
pub enum ProjectError {
    /// The classifier was handed a path whose file name is neither of the two
    /// recognized manifest names; the offending path is carried for
    /// diagnostics.
    InvalidManifest(AbsPath),
    /// Single-root resolution found no manifest at all.
    NoProjectFound,
    /// Single-root resolution found more than one manifest.
    AmbiguousProject,
    /// A filesystem read failed and no information could be gathered at all;
    /// carries the underlying error text.
    IoError(String),
    /// An external command exited unsuccessfully; carries the full message
    /// with the invocation, the exit status, and any captured error text.
    CommandFailed(String),
    /// Subprocess output did not decode as valid text.
    EncodingError,
}

} // verus!
