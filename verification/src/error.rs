//! The errors the pipeline can surface. The pipeline never recovers from one
//! of these internally: each is returned to the caller, who decides how to
//! report it.

use vstd::prelude::*;

verus! {

/// A fatal condition found while validating a language definition, building
/// the statement tree, or rendering it.
#[derive(Debug, Clone, PartialEq, Eq)]
pub enum TranspileError {
    /// Two rules of the same mapping of the language definition share this
    /// name.
    DuplicateRule(String),
    /// A block opened on this source line (counting from one) was never
    /// closed.
    MalformedSource(usize),
    /// The statement tree names a rule that the language definition lacks.
    UnknownRule(String),
}

} // verus!
