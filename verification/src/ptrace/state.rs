//! What is kept of a task for the sake of its tracer.
use crate::process::signal::{SigInfo, Signal};
use crate::ptrace::types::PtraceOptions;
use vstd::prelude::*;

verus! {

/// The tracing state of a task.
#[derive(Debug, Clone, Copy)]
pub struct PtraceState {
    /// The code of the current stop: a signal number, an event with `SIGTRAP`,
    /// or `SIGTRAP` with the system call mark.
    pub exit_code: usize,
    /// The signal that the tracer wants the task to go on with.
    pub injected_signal: Signal,
    /// The signal of the current stop, for the tracer to read and to replace.
    pub last_siginfo: Option<SigInfo>,
    /// The message of the current event.
    pub event_message: usize,
    pub options: PtraceOptions,
    /// The task is stopped and its tracer listens for it only.
    pub listening: bool,
    /// The current stop has not been reported to a waiter yet.
    pub stop_report_pending: bool,
    /// The task is in a tracing stop.
    pub in_ptrace_stop: bool,
    /// An event stop that is still to come.
    pub pending_event_stop: Option<Signal>,
    /// The trap flag was set by the tracer for single steps.
    pub forced_trap_flag: bool,
    /// The registers of the current stop are on the system call stack.
    pub stop_frame_on_syscall_stack: bool,
    /// The debug registers as the tracer set them.
    pub debug_regs: [u64; 8],
}

impl PtraceState {
    /// Whether this is the state of a task that was never traced.
    pub open spec fn is_initial(self) -> bool {
        &&& self.exit_code == 0
        &&& self.injected_signal == (Signal { nr: Signal::INVALID })
        &&& self.last_siginfo == None::<SigInfo>
        &&& self.event_message == 0
        &&& self.options == (PtraceOptions { bits: 0 })
        &&& !self.listening
        &&& !self.stop_report_pending
        &&& !self.in_ptrace_stop
        &&& self.pending_event_stop == None::<Signal>
        &&& !self.forced_trap_flag
        &&& !self.stop_frame_on_syscall_stack
        &&& forall|i: int| 0 <= i < 8 ==> self.debug_regs@[i] == 0
    }

    /// The state of a task that was never traced.
    pub fn new() -> (state: PtraceState)
        ensures
            state.is_initial(),
    {
        PtraceState {
            exit_code: 0,
            injected_signal: Signal { nr: Signal::INVALID },
            last_siginfo: None,
            event_message: 0,
            options: PtraceOptions { bits: 0 },
            listening: false,
            stop_report_pending: false,
            in_ptrace_stop: false,
            pending_event_stop: None,
            forced_trap_flag: false,
            stop_frame_on_syscall_stack: false,
            debug_regs: [0u64; 8],
        }
    }

    /// What a waiter learns of the current stop.
    pub open spec fn stop_report(self) -> Option<i32> {
        if self.listening || !self.stop_report_pending {
            None
        } else {
            Some(self.exit_code as i32)
        }
    }

    /// The state after a waiter has looked at the current stop. With `consume` a stop
    /// that was reported is not reported again.
    pub open spec fn after_report(self, consume: bool) -> PtraceState {
        if consume && self.stop_report() is Some {
            PtraceState { stop_report_pending: false, ..self }
        } else {
            self
        }
    }

    /// Reports the current stop to a waiter. With `consume` it is reported only
    /// once; a stop that its tracer merely listens for is not reported at all.
    pub fn consume_stop_report(&mut self, consume: bool) -> (code: Option<i32>)
        ensures
            code == old(self).stop_report(),
            *final(self) == old(self).after_report(consume),
    {
        if self.listening || !self.stop_report_pending {
            return None;
        }
        let code: i32 = #[verifier::truncate]
        (self.exit_code as i32);
        if consume {
            self.stop_report_pending = false;
        }
        Some(code)
    }

    pub open spec fn spec_stop_cleared(&self) -> PtraceState {
        PtraceState {
            stop_report_pending: false,
            in_ptrace_stop: false,
            listening: false,
            pending_event_stop: None,
            exit_code: 0,
            ..*self
        }
    }

    /// The state with the current stop taken off: nothing to report, no code and
    /// no event stop to come.
    #[verifier::when_used_as_spec(spec_stop_cleared)]
    pub fn stop_cleared(&self) -> (state: PtraceState)
        ensures
            state == self.stop_cleared(),
    {
        PtraceState {
            stop_report_pending: false,
            in_ptrace_stop: false,
            listening: false,
            pending_event_stop: None,
            exit_code: 0,
            ..*self
        }
    }
}

impl Default for PtraceState {
    fn default() -> (state: PtraceState)
        ensures
            state.is_initial(),
    {
        PtraceState::new()
    }
}

/// A stop that has been consumed is not reported again, however often a waiter looks, and
/// looking without consuming changes nothing.
pub proof fn law_stop_is_reported_once(s: PtraceState, again: bool)
    ensures
        s.after_report(true).stop_report() is None,
        s.after_report(true).after_report(again) == s.after_report(true),
        s.after_report(false) == s,
{
}

/// A task that was never traced has nothing of a tracer.
pub proof fn law_state_of_a_task_that_was_never_traced(s: PtraceState)
    requires
        s.is_initial(),
    ensures
        s.exit_code == 0,
        s.injected_signal.nr == 0,
        s.last_siginfo is None,
        s.event_message == 0,
        s.options.bits == 0,
        !s.listening,
        !s.stop_report_pending,
        !s.in_ptrace_stop,
        s.pending_event_stop is None,
        !s.forced_trap_flag,
        !s.stop_frame_on_syscall_stack,
        forall|i: int| 0 <= i < 8 ==> s.debug_regs@[i] == 0,
        s.stop_report() is None,
{
}

} // verus!
