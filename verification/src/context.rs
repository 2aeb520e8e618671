//! The opaque per-connection processing context threaded through every codec
//! operation. The codec primitives never read or change it; it exists so that
//! higher layers can carry cross-cutting protocol state through the calls.

use vstd::prelude::*;

verus! {

/// Opaque, caller-owned auxiliary state passed by mutable reference into
/// every codec operation. None of the primitives in this crate consult it.
pub struct TransportProcessorContext {}

impl TransportProcessorContext {
    /// A context carrying no state.
    pub fn new() -> TransportProcessorContext {
        TransportProcessorContext {}
    }
}

} // verus!
