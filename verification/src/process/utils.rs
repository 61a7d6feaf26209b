//! Shorthands for the running task.
use crate::process::manager::ProcessManager;
use crate::process::pcb::ProcessFlags;
use vstd::prelude::*;

verus! {

/// The marks on the running task; none as long as processes are not set up.
pub fn current_pcb_flags(pm: &ProcessManager) -> (flags: ProcessFlags)
    requires
        pm@.wf(),
    ensures
        flags == (if pm@.init_done {
            pm@.task(pm@.current).flags
        } else {
            ProcessFlags::none()
        }),
{
    if !pm.init_done {
        return ProcessFlags::empty();
    }
    pm.task(pm.current).flags
}

} // verus!
