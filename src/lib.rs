//! Client-side models for a remote text-generation service, and the
//! incremental decoder that splits a streamed completion body into JSON values.

pub mod buffer;
pub mod completions;
pub mod float_bits;
pub mod stream;
pub mod tokenize;
pub mod translate;

use vstd::prelude::*;

verus! {

/// An engine of the service.
pub trait IsEngine {
    /// The engine's identifier in request paths.
    spec fn path_id(&self) -> Seq<char>;

    /// It serves completions; no engine does unless it says so.
    fn is_completion(&self) -> bool {
        false
    }

    /// It serves translations; no engine does unless it says so.
    fn is_translation(&self) -> bool {
        false
    }

    /// Its identifier in request paths.
    fn name(&self) -> (r: &'static str)
        ensures
            r@ == self.path_id(),
    ;
}

} // verus!
