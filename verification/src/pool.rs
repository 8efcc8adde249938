//! The size of the pool of workers that render rows.

use vstd::prelude::*;

verus! {

/// The pool size for a machine with `cpus` logical processors: one worker
/// for each, at least one and no more than the counter of a pool can hold.
pub open spec fn pool_size_of(cpus: usize) -> u32 {
    if cpus == 0 {
        1
    } else if cpus > u32::MAX {
        u32::MAX
    } else {
        cpus as u32
    }
}

/// Asks `num_cpus::get` for the number of logical processors that this
/// process may use. Nothing is taken on trust of the number.
#[verifier::external_body]
fn logical_cpus() -> usize {
    num_cpus::get()
}

/// The pool size for a machine with `cpus` logical processors.
pub fn pool_size(cpus: usize) -> (workers: u32)
    ensures
        workers == pool_size_of(cpus),
{
    if cpus == 0 {
        1
    } else if cpus > u32::MAX as usize {
        u32::MAX
    } else {
        cpus as u32
    }
}

/// The number of workers to render with on this machine: the pool size for
/// the number of logical processors that the machine reports.
pub fn worker_count() -> (workers: u32)
    ensures
        workers >= 1,
        exists|cpus: usize| workers == #[trigger] pool_size_of(cpus),
{
    pool_size(logical_cpus())
}

} // verus!
