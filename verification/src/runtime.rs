//! How many threads the proxy runs on.

use vstd::prelude::*;

verus! {

/// The runtime to build.
#[derive(Clone, Copy, Debug, PartialEq, Eq, Structural)]
pub enum RuntimeKind {
    /// Everything runs on the thread that starts it.
    CurrentThread,
    /// The work is spread over this many threads.
    MultiThread(usize),
}

/// `num_cpus::get`: the number of processors at hand. It depends on the
/// machine and on what it allows this process, so nothing is said of it.
#[verifier::external_body]
pub(crate) fn available_cpus() -> usize {
    num_cpus::get()
}

/// The runtime for `cores` threads asked for on `cpus` processors: no more
/// threads than processors, and a single thread where that leaves one or
/// none.
pub open spec fn runtime_for(cores: usize, cpus: usize) -> RuntimeKind {
    let threads = if cores > cpus {
        cpus
    } else {
        cores
    };
    if threads <= 1 {
        RuntimeKind::CurrentThread
    } else {
        RuntimeKind::MultiThread(threads)
    }
}

/// The runtime for `cores` threads asked for on `cpus` processors.
pub fn runtime_kind(cores: usize, cpus: usize) -> (kind: RuntimeKind)
    ensures
        kind == runtime_for(cores, cpus),
{
    let threads = if cores > cpus {
        cpus
    } else {
        cores
    };
    if threads <= 1 {
        RuntimeKind::CurrentThread
    } else {
        RuntimeKind::MultiThread(threads)
    }
}

/// The runtime for `cores` threads asked for on this machine, whatever the
/// number of its processors.
pub fn build(cores: usize) -> (kind: RuntimeKind)
    ensures
        exists|cpus: usize| kind == #[trigger] runtime_for(cores, cpus),
{
    let cpus = available_cpus();
    runtime_kind(cores, cpus)
}

} // verus!
