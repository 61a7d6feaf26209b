//! The number of runnable tasks on all processors together.
use crate::process::manager::{ProcessManager, ProcessManagerView};
use vstd::prelude::*;

verus! {

/// The number of runnable tasks on all processors.
pub fn nr_running(pm: &ProcessManager) -> (n: usize)
    ensures
        n == pm@.nr_running,
{
    pm.nr_running
}

/// Counts more runnable tasks.
pub fn inc_nr_running(pm: &mut ProcessManager, n: usize)
    requires
        old(pm)@.nr_running + n <= usize::MAX,
    ensures
        final(pm)@ == (ProcessManagerView {
            nr_running: (old(pm)@.nr_running + n) as usize,
            ..old(pm)@
        }),
{
    pm.nr_running = pm.nr_running + n;
}

/// Counts fewer runnable tasks.
pub fn dec_nr_running(pm: &mut ProcessManager, n: usize)
    requires
        old(pm)@.nr_running >= n,
    ensures
        final(pm)@ == (ProcessManagerView {
            nr_running: (old(pm)@.nr_running - n) as usize,
            ..old(pm)@
        }),
{
    pm.nr_running = pm.nr_running - n;
}

} // verus!
