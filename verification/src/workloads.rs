//! Workloads for benchmarking the harness itself.
use vstd::prelude::*;

verus! {

/// Busy work: about four million empty loop iterations.
pub fn loop_some() {
    for _outer in 1..40000u32 {
        for _inner in 1..100u32 {
        }
    }
}

} // verus!
