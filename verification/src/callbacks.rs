use vstd::prelude::*;

verus! {

/// The compiler callbacks of the pass that rewrites the source of every file
/// before it is parsed. It carries no state of its own.
pub struct TransformSourceCallback {}

impl TransformSourceCallback {
    /// The callbacks.
    pub fn new() -> Self {
        Self {}
    }
}

} // verus!
