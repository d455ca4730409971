//! The consumer-facing side of the optional features: the capability
//! interface a consumer narrows the example feature's handle to, and the
//! tag it is registered under. Concrete feature behaviour lives with the
//! embedding application.

use vstd::prelude::*;

verus! {

/// The capability interface tag of the example feature, used when
/// narrowing its handle.
pub const EXAMPLE_API: u64 = 1;

/// The example feature's public API, obtained by narrowing its handle.
pub trait ExampleAPI {
    /// Performs the feature's one visible action.
    fn do_something(&self);
}

} // verus!
