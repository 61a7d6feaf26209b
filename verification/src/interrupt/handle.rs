//! The way of an interrupt through the kernel.
use crate::interrupt::trap_frame::TrapFrame;
use crate::process::action::Action;
use crate::process::manager::ProcessManager;
use crate::process::preempt::preempt_count_val;
use crate::process::pcb::TaskId;
use crate::process::utils::current_pcb_flags;
use crate::sched::flags::SchedMode;
use crate::sched::percpu::{SchedCore, SchedCoreView};
use crate::sched::rq::{ClockSample, CpuRunQueue};
use crate::sched::schedule::{PassState, __schedule};
use crate::sched::scheduler::SchedClasses;
use vstd::prelude::*;

verus! {

/// What an interrupt has done: if it came from the user the base of the GS segment is
/// exchanged, then it is handled, or merely ended where nothing handles it, and what it
/// deferred is done.
pub open spec fn irq_actions(from_user: bool, vector: u32, handled: bool) -> Seq<Action> {
    let handling = seq![
        if handled {
            Action::HandleIrq(vector)
        } else {
            Action::SendEoi
        },
        Action::DoSoftirq,
    ];
    if from_user {
        seq![Action::SwapGs] + handling
    } else {
        handling
    }
}

/// Takes the interrupt `vector`; `handled` tells whether a handler is installed for it.
/// When what is to be done has been done, `x86_64_irq_return` follows.
pub fn x86_64_do_irq(pm: &mut ProcessManager, frame: &TrapFrame, vector: u32, handled: bool)
    ensures
        final(pm)@ == old(pm)@.with_actions(
            irq_actions(frame.spec_is_from_user(), vector, handled),
        ),
{
    if frame.is_from_user() {
        pm.act(Action::SwapGs);
    }
    if handled {
        pm.act(Action::HandleIrq(vector));
    } else {
        pm.act(Action::SendEoi);
    }
    pm.act(Action::DoSoftirq);
}

/// Whether the running task is preempted on the way back from an interrupt: preemption
/// is enabled, and the task should give up the processor.
pub open spec fn preempts_on_return(
    pm: crate::process::manager::ProcessManagerView,
) -> bool {
    pm.count() == 0 && pm.init_done && pm.task(pm.current).flags.need_schedule
}

/// The way back from an interrupt: preempts the running task if it should be. Returns
/// whether the processor went to another task.
pub fn x86_64_irq_return<K: SchedClasses>(
    sched: &mut SchedCore,
    pm: &mut ProcessManager,
    sample: ClockSample,
) -> (switched: bool)
    requires
        old(pm)@.wf(),
        preempts_on_return(old(pm)@) ==> crate::sched::schedule::can_schedule(
            old(sched)@,
            old(pm)@,
        ),
    ensures
        !preempts_on_return(old(pm)@) ==> !switched && final(sched)@ == old(sched)@ && final(pm)@
            == old(pm)@,
        preempts_on_return(old(pm)@) ==> exists|
            next: TaskId,
            rq: CpuRunQueue,
            mid: SchedCoreView,
        |
            #![trigger crate::sched::schedule::schedule_rel::<K>(
                old(sched)@,
                old(pm)@,
                (SchedMode { bits: SchedMode::SM_PREEMPT }),
                sample,
                next,
                PassState::of(rq, mid, final(pm)@),
            )]
            crate::sched::schedule::schedule_rel::<K>(
                old(sched)@,
                old(pm)@,
                (SchedMode { bits: SchedMode::SM_PREEMPT }),
                sample,
                next,
                PassState::of(rq, mid, final(pm)@),
            ) && final(sched)@ == mid.with_rq(old(pm)@.cpu, rq) && switched == (Some(next)
                != old(sched)@.rq(old(pm)@.cpu).current),
        preempts_on_return(old(pm)@) ==> {
            let cpu = old(pm)@.cpu;
            let prev = old(sched)@.rq(cpu).current;
            &&& !final(pm)@.task(prev->Some_0).flags.need_schedule
            &&& switched ==> final(sched)@.rq(cpu).lock.locked && !final(pm)@.irq_enabled
                && final(pm)@.preempt_count == old(pm)@.preempt_disabled().preempt_count
            &&& !switched ==> final(sched)@.rq(cpu).current == prev && !final(sched)@.rq(
                cpu,
            ).lock.locked && final(pm)@.irq_enabled == old(pm)@.irq_enabled
                && final(pm)@.preempt_count
                == old(pm)@.preempt_disabled().preempt_enabled().preempt_count
            &&& final(sched)@.wf()
            &&& final(pm)@.cpu == cpu
            &&& final(pm)@.current == old(pm)@.current
            &&& final(pm)@.tasks.len() == old(pm)@.tasks.len()
        },
        final(pm)@.wf(),
{
    if preempt_count_val(pm) > 0 {
        return false;
    }
    if current_pcb_flags(pm).need_schedule {
        __schedule::<K>(sched, pm, SchedMode { bits: SchedMode::SM_PREEMPT }, sample)
    } else {
        false
    }
}

/// An interrupt out of user mode exchanges the base of the GS segment first, and one out of the
/// kernel does not. Then it is handled if something handles it, and otherwise ended, and what was
/// deferred is done last.
pub proof fn law_order_of_an_interrupt(frame: TrapFrame, vector: u32, handled: bool)
    ensures
        ({
            let actions = irq_actions(frame.spec_is_from_user(), vector, handled);
            let n = actions.len() as int;
            &&& n == if frame.cs & 3 != 0 {
                3int
            } else {
                2int
            }
            &&& frame.cs & 3 != 0 ==> actions[0] == Action::SwapGs
            &&& handled ==> actions[n - 2] == Action::HandleIrq(vector)
            &&& !handled ==> actions[n - 2] == Action::SendEoi
            &&& actions[n - 1] == Action::DoSoftirq
        }),
{
}

/// On the way back from an interrupt a task is preempted exactly if it should give up the
/// processor, and preemption is not disabled there.
pub proof fn law_who_is_preempted(pm: crate::process::manager::ProcessManagerView)
    ensures
        preempts_on_return(pm) <==> pm.init_done && pm.preempt_count[pm.cpu.id as int] == 0
            && pm.tasks[pm.current as int].flags.need_schedule,
{
}

} // verus!
