//! The error taxonomy of the style pipeline: a view name absent from a
//! resolved style tree, and malformed color / size nodes.

use vstd::prelude::*;

verus! {

/// An error raised while resolving or applying a style document.
#[derive(Clone, Copy, Debug, PartialEq, Eq, Structural)]
pub enum StyleError {
    /// A view name (or the window block) is absent from the style tree.
    StyleKeyNotFound,
    /// A required field (a color channel, a window dimension) is absent.
    MissingField,
    /// A required field is present but not numeric.
    TypeMismatch,
}

} // verus!
