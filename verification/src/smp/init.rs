//! Bringing up the processors beside the one that boots.
use crate::process::action::Action;
use crate::process::manager::{ProcessManager, ProcessManagerView};
use crate::process::preempt::set_preempt_count_val;
use vstd::prelude::*;

verus! {

impl ProcessManagerView {
    /// The same with more things to be done.
    pub open spec fn with_actions(self, actions: Seq<Action>) -> ProcessManagerView {
        ProcessManagerView { actions: self.actions + actions, ..self }
    }
}

/// The last stage of bringing up a processor, with interrupts off: the boot processor
/// is told, this one is set up and starts scheduling, and with a preemption count that
/// has lost what booting left in it the idle loop is entered.
pub fn smp_ap_start_stage2(pm: &mut ProcessManager)
    requires
        old(pm)@.wf(),
        !old(pm)@.irq_enabled,
    ensures
        final(pm)@ == old(pm)@.with_actions(
            seq![
                Action::CpuhpStep(old(pm)@.cpu),
                Action::CompleteApThread(true),
                Action::InitNxe,
                Action::InitKvmClock,
                Action::InitSyscall,
                Action::InitialSetupSchedLocal,
                Action::EnableSchedLocal,
                Action::ArchIdle,
            ],
        ).with_count(0),
{
    let cpu_id = pm.cpu;
    pm.act(Action::CpuhpStep(cpu_id));
    pm.act(Action::CompleteApThread(true));
    do_ap_start_stage2(pm);
    pm.act(Action::InitialSetupSchedLocal);
    pm.act(Action::EnableSchedLocal);
    set_preempt_count_val(pm, 0);
    pm.act(Action::ArchIdle);
}

/// Sets up what each processor has of its own.
fn do_ap_start_stage2(pm: &mut ProcessManager)
    ensures
        final(pm)@ == old(pm)@.with_actions(
            seq![Action::InitNxe, Action::InitKvmClock, Action::InitSyscall],
        ),
{
    pm.act(Action::InitNxe);
    pm.act(Action::InitKvmClock);
    pm.act(Action::InitSyscall);
}

/// What is to be done comes behind what was to be done before, in its order.
pub proof fn law_actions_keep_their_order(pm: ProcessManagerView, actions: Seq<Action>, i: int)
    requires
        0 <= i < pm.actions.len() + actions.len(),
    ensures
        pm.with_actions(actions).actions.len() == pm.actions.len() + actions.len(),
        i < pm.actions.len() ==> pm.with_actions(actions).actions[i] == pm.actions[i],
        i >= pm.actions.len() ==> pm.with_actions(actions).actions[i] == actions[i
            - pm.actions.len()],
        pm.with_actions(actions).tasks == pm.tasks,
        pm.with_count(0).preempt_count == pm.preempt_count.update(pm.cpu.id as int, 0),
        pm.with_count(0).actions == pm.actions,
{
}

} // verus!
