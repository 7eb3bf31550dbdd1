//! Deterministic micro-benchmark measurements driven by a cache simulator:
//! the counter model, the simulator report parser, the child-process
//! dispatch protocol, the orchestrator's decisions, the clock-rate text of
//! the processor description, and the rendering of results.
use vstd::prelude::*;

pub mod dispatch;
pub mod format;
pub mod orchestrator;
pub mod probe;
pub mod report;
pub mod stats;
pub mod text;

verus! {

/// Relies on `core::hint::black_box`: it returns its argument unchanged and
/// only hides it from the optimizer.
pub assume_specification<T>[ core::hint::black_box::<T> ](dummy: T) -> (r: T)
    ensures
        r == dummy,
;

/// A function that is opaque to the optimizer, used to prevent the compiler
/// from optimizing away computations in a benchmark.
pub fn black_box<T>(dummy: T) -> (r: T)
    ensures
        r == dummy,
{
    core::hint::black_box(dummy)
}

} // verus!
