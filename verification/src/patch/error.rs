//! What goes wrong when a patch file cannot be applied.
use vstd::prelude::*;

use crate::SvdError;

verus! {

/// Why a patch file cannot be applied. The patch tool stops with a message
/// built from it.
#[derive(Clone, Debug, PartialEq, Eq)]
pub enum PatchError {
    /// A pattern of the patch file is no valid glob.
    InvalidGlob(String),
    /// A prefix or suffix cannot be cut from a name at a character boundary.
    Strip(String),
    /// The element to add exists already.
    Exists(String),
    /// Nothing matches the pattern.
    NotFound(String),
    /// The matched elements cannot be collected into an array or cluster.
    Collect(String),
    /// A value of the patch file has not the expected kind or form.
    Value(String),
    /// A patched element is not valid.
    Invalid(SvdError),
    /// More elements match than the edit can take.
    TooMany(String),
    /// The field has enumerated values of that usage already.
    Enumerated(String),
    /// The patch file asks for an edit that this tool does not make.
    Unsupported(String),
    /// The text of a patch file is no YAML, or holds no mapping.
    Read(String),
}

} // verus!
