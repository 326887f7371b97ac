//! When synchronous calls may wait on an asynchronous runtime.

use vstd::prelude::*;

verus! {

/// How an asynchronous runtime schedules its work.
#[derive(Clone, Copy, PartialEq, Eq, Structural, Debug)]
pub enum RuntimeFlavor {
    /// On the thread that runs it.
    CurrentThread,
    /// On several threads.
    MultiThread,
}

/// Tells whether a call may wait on the runtime that it runs in, if it runs in one: on a runtime of
/// a single thread the work waited for could never run.
pub fn may_wait(running_in: Option<RuntimeFlavor>) -> (res: bool)
    ensures
        res == (running_in == Some(RuntimeFlavor::MultiThread)),
{
    match running_in {
        Some(RuntimeFlavor::CurrentThread) => false,
        Some(RuntimeFlavor::MultiThread) => true,
        None => false,
    }
}

} // verus!
