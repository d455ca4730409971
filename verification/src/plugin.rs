//! The contract between the supervisor and the workloads it runs. The
//! behavioural side of the contract (the lifecycle calls themselves) lives
//! with the embedding application; the library owns the data the
//! supervisor's rules are stated over.

use vstd::prelude::*;

verus! {

/// How a workload behaves once running: a blocking workload keeps running
/// until it observes the shutdown notification; a non-blocking workload
/// performs one unit of work and returns. All workloads of one run must
/// share the same mode.
#[derive(PartialEq, Eq, Structural, Clone, Copy, Debug)]
pub enum ServiceExecutionMode {
    Block,
    NonBlock,
}

} // verus!
