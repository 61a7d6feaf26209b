//! What a tracer is told of the system call that its tracee is in.
use crate::error::SystemError;
use crate::process::pcb::ProcessControlBlock;
use crate::process::signal::{RawPid, Signal};
use crate::ptrace::state::PtraceState;
use crate::ptrace::types::{
    PtraceEvent, PtraceOptions, PTRACE_EVENTMSG_SYSCALL_ENTRY, PTRACE_EVENTMSG_SYSCALL_EXIT,
};
use vstd::prelude::*;

verus! {

/// Where in a system call a task is stopped.
#[derive(Debug, Clone, Copy, PartialEq, Eq, Structural)]
pub enum PtraceSyscallInfoOp {
    /// Not in a system call.
    Outside,
    /// At its entry.
    Entry,
    /// At its exit.
    Exit,
    /// Where a filter looks at it.
    Seccomp,
}

/// A system call at its entry.
#[derive(Debug, Clone, Copy)]
pub struct PtraceSyscallInfoEntry {
    pub nr: u64,
    pub args: [u64; 6],
}

/// A system call at its exit.
#[derive(Debug, Clone, Copy)]
pub struct PtraceSyscallInfoExit {
    pub rval: i64,
    /// 1 if the value that is returned tells of an error, and 0 otherwise.
    pub is_error: u8,
}

/// A system call that a filter looks at.
#[derive(Debug, Clone, Copy)]
pub struct PtraceSyscallInfoSeccomp {
    pub nr: u64,
    pub args: [u64; 6],
    /// What the filter says.
    pub ret_data: u32,
}

/// What there is to tell of a system call.
#[derive(Debug, Clone, Copy)]
pub enum PtraceSyscallInfoData {
    Empty,
    Entry(PtraceSyscallInfoEntry),
    Exit(PtraceSyscallInfoExit),
    Seccomp(PtraceSyscallInfoSeccomp),
}

/// The system call that a task is in.
#[derive(Debug, Clone, Copy)]
pub struct PtraceSyscallInfo {
    pub op: PtraceSyscallInfoOp,
    pub pad: [u8; 3],
    /// The architecture of the task.
    pub arch: u32,
    pub instruction_pointer: u64,
    pub stack_pointer: u64,
    pub data: PtraceSyscallInfoData,
}

impl Default for PtraceSyscallInfoOp {
    fn default() -> (op: PtraceSyscallInfoOp)
        ensures
            op == PtraceSyscallInfoOp::Outside,
    {
        PtraceSyscallInfoOp::Outside
    }
}

impl Default for PtraceSyscallInfoData {
    fn default() -> (data: PtraceSyscallInfoData)
        ensures
            data == PtraceSyscallInfoData::Empty,
    {
        PtraceSyscallInfoData::Empty
    }
}

impl Default for PtraceSyscallInfo {
    fn default() -> (info: PtraceSyscallInfo)
        ensures
            info.is_outside(0, 0, 0),
    {
        PtraceSyscallInfo::new(0, 0, 0)
    }
}

impl PtraceSyscallInfo {
    /// Whether this tells of a task that is in no system call.
    pub open spec fn is_outside(self, arch: u32, ip: u64, sp: u64) -> bool {
        &&& self.op == PtraceSyscallInfoOp::Outside
        &&& self.pad@ == seq![0u8, 0u8, 0u8]
        &&& self.arch == arch
        &&& self.instruction_pointer == ip
        &&& self.stack_pointer == sp
        &&& self.data == PtraceSyscallInfoData::Empty
    }

    /// A task with an instruction and a stack pointer, in no system call.
    pub fn new(arch: u32, ip: u64, sp: u64) -> (info: PtraceSyscallInfo)
        ensures
            info.is_outside(arch, ip, sp),
    {
        let pad: [u8; 3] = [0, 0, 0];
        assert(pad@ =~= seq![0u8, 0u8, 0u8]);
        PtraceSyscallInfo {
            op: PtraceSyscallInfoOp::Outside,
            pad,
            arch,
            instruction_pointer: ip,
            stack_pointer: sp,
            data: PtraceSyscallInfoData::Empty,
        }
    }

    /// The same task at the entry of a system call.
    pub fn with_entry(self, nr: u64, args: [u64; 6]) -> (info: PtraceSyscallInfo)
        ensures
            info == (PtraceSyscallInfo {
                op: PtraceSyscallInfoOp::Entry,
                data: PtraceSyscallInfoData::Entry(PtraceSyscallInfoEntry { nr, args }),
                ..self
            }),
    {
        PtraceSyscallInfo {
            op: PtraceSyscallInfoOp::Entry,
            data: PtraceSyscallInfoData::Entry(PtraceSyscallInfoEntry { nr, args }),
            ..self
        }
    }

    /// The same task at the exit of a system call.
    pub fn with_exit(self, rval: i64, is_error: bool) -> (info: PtraceSyscallInfo)
        ensures
            info == (PtraceSyscallInfo {
                op: PtraceSyscallInfoOp::Exit,
                data: PtraceSyscallInfoData::Exit(
                    PtraceSyscallInfoExit {
                        rval,
                        is_error: if is_error {
                            1
                        } else {
                            0
                        },
                    },
                ),
                ..self
            }),
    {
        let is_error: u8 = if is_error {
            1
        } else {
            0
        };
        PtraceSyscallInfo {
            op: PtraceSyscallInfoOp::Exit,
            data: PtraceSyscallInfoData::Exit(PtraceSyscallInfoExit { rval, is_error }),
            ..self
        }
    }

    /// The same task where a filter looks at a system call.
    pub fn with_seccomp(self, nr: u64, args: [u64; 6], ret_data: u32) -> (info: PtraceSyscallInfo)
        ensures
            info == (PtraceSyscallInfo {
                op: PtraceSyscallInfoOp::Seccomp,
                data: PtraceSyscallInfoData::Seccomp(
                    PtraceSyscallInfoSeccomp { nr, args, ret_data },
                ),
                ..self
            }),
    {
        PtraceSyscallInfo {
            op: PtraceSyscallInfoOp::Seccomp,
            data: PtraceSyscallInfoData::Seccomp(PtraceSyscallInfoSeccomp { nr, args, ret_data }),
            ..self
        }
    }
}

/// Whether a value that a system call returns tells of an error.
pub fn syscall_retval_is_error(retval: i64) -> (b: bool)
    ensures
        b == (-4095 <= retval <= -1),
{
    -4095 <= retval && retval <= -1
}

/// The number of the architecture.
pub const AUDIT_ARCH_X86_64: u32 = 0xC000_003E;

/// The code of a system call stop with the mark of a system call.
pub const SYSCALL_TRAP: i32 = 0x85;

/// The code in the signal of the current stop.
pub open spec fn stop_code(state: PtraceState) -> i32 {
    match state.last_siginfo {
        Some(info) => info.code.as_i32(),
        None => 0,
    }
}

/// Where in a system call a task is stopped, by the signal and the message of the stop.
pub open spec fn syscall_op(state: PtraceState) -> PtraceSyscallInfoOp {
    let code = stop_code(state);
    if code & 0xff == SYSCALL_TRAP && state.event_message == PTRACE_EVENTMSG_SYSCALL_ENTRY {
        PtraceSyscallInfoOp::Entry
    } else if code & 0xff == SYSCALL_TRAP && state.event_message == PTRACE_EVENTMSG_SYSCALL_EXIT {
        PtraceSyscallInfoOp::Exit
    } else if code >> 8 == PtraceEvent::Seccomp.number() {
        PtraceSyscallInfoOp::Seccomp
    } else {
        PtraceSyscallInfoOp::Outside
    }
}

/// Where in a system call a task is stopped.
fn current_op(state: &PtraceState) -> (op: PtraceSyscallInfoOp)
    ensures
        op == syscall_op(*state),
{
    let code: i32 = match state.last_siginfo {
        Some(info) => info.code.as_i32(),
        None => 0,
    };
    if code & 0xff == SYSCALL_TRAP && state.event_message == PTRACE_EVENTMSG_SYSCALL_ENTRY {
        PtraceSyscallInfoOp::Entry
    } else if code & 0xff == SYSCALL_TRAP && state.event_message == PTRACE_EVENTMSG_SYSCALL_EXIT {
        PtraceSyscallInfoOp::Exit
    } else if code >> 8 == 7 {
        PtraceSyscallInfoOp::Seccomp
    } else {
        PtraceSyscallInfoOp::Outside
    }
}

impl ProcessControlBlock {
    /// The arguments of the system call that the task is in.
    pub open spec fn syscall_args(self) -> Seq<u64> {
        let frame = self.stop_frame();
        seq![frame.rdi, frame.rsi, frame.rdx, frame.r10, frame.r8, frame.r9]
    }

    /// The system call that the task is in.
    pub fn ptrace_get_syscall_info(&self, _user_size: usize) -> (res: Result<
        PtraceSyscallInfo,
        SystemError,
    >)
        ensures
            res matches Ok(info) && ({
                let frame = self.stop_frame();
                &&& info.op == syscall_op(self.ptrace_state)
                &&& info.pad@ == seq![0u8, 0u8, 0u8]
                &&& info.arch == AUDIT_ARCH_X86_64
                &&& info.instruction_pointer == frame.rip
                &&& info.stack_pointer == frame.rsp
                &&& match info.op {
                    PtraceSyscallInfoOp::Entry => {
                        info.data matches PtraceSyscallInfoData::Entry(entry) && entry.nr
                            == frame.errcode && entry.args@ == self.syscall_args()
                    },
                    PtraceSyscallInfoOp::Exit => {
                        info.data matches PtraceSyscallInfoData::Exit(exit) && exit.rval
                            == frame.rax as i64 && exit.is_error == (if -4095 <= exit.rval <= -1 {
                            1u8
                        } else {
                            0u8
                        })
                    },
                    PtraceSyscallInfoOp::Seccomp => {
                        info.data matches PtraceSyscallInfoData::Seccomp(seccomp) && seccomp.nr
                            == frame.errcode && seccomp.args@ == self.syscall_args()
                            && seccomp.ret_data == self.ptrace_state.event_message as u32
                    },
                    PtraceSyscallInfoOp::Outside => info.data == PtraceSyscallInfoData::Empty,
                }
            }),
    {
        let op = current_op(&self.ptrace_state);
        let frame = self.stop_frame();
        let info = PtraceSyscallInfo::new(AUDIT_ARCH_X86_64, frame.rip, frame.rsp);
        let args: [u64; 6] = [
            frame.rdi,
            frame.rsi,
            frame.rdx,
            frame.r10,
            frame.r8,
            frame.r9,
        ];
        assert(args@ =~= self.syscall_args());
        match op {
            PtraceSyscallInfoOp::Entry => Ok(info.with_entry(frame.errcode, args)),
            PtraceSyscallInfoOp::Seccomp => {
                let ret_data: u32 = #[verifier::truncate]
                (self.ptrace_state.event_message as u32);
                Ok(info.with_seccomp(frame.errcode, args, ret_data))
            },
            PtraceSyscallInfoOp::Exit => {
                let rval: i64 = #[verifier::truncate]
                (frame.rax as i64);
                let is_error = syscall_retval_is_error(rval);
                Ok(info.with_exit(rval, is_error))
            },
            PtraceSyscallInfoOp::Outside => Ok(info),
        }
    }
}

/// A stop at a system call tells where in it the task is if the tracer wants such stops to be
/// marked, and does not tell it otherwise; a step over the exit never does.
pub proof fn law_marked_syscall_stop_tells_where(
    p: ProcessControlBlock,
    is_entry: bool,
    rsp: usize,
    pid: RawPid,
)
    ensures
        ({
            let stopped = p.with_ptrace_state(
                p.ptrace_state.with_event_message(crate::ptrace::report::syscall_message(is_entry)),
            ).standing_still(
                p.syscall_stop_code(is_entry),
                rsp,
                Some(crate::ptrace::report::trap_siginfo(pid, p.syscall_si_code(is_entry))),
            );
            syscall_op(stopped.ptrace_state) == if !p.ptrace_state.options.contains(
                PtraceOptions::TRACESYSGOOD,
            ) || (!is_entry && p.flags.trace_singlestep) {
                PtraceSyscallInfoOp::Outside
            } else if is_entry {
                PtraceSyscallInfoOp::Entry
            } else {
                PtraceSyscallInfoOp::Exit
            }
        }),
{
    reveal(ProcessControlBlock::spec_not_trapping);
    reveal(ProcessControlBlock::spec_standing_still);
    assert((5usize | 0x80usize) == 0x85usize && 0x85i32 & 0xff == 0x85i32 && 5i32 & 0xff == 5i32
        && 5i32 >> 8i32 == 0i32 && 1i32 & 0xff == 1i32 && 1i32 >> 8i32 == 0i32) by (bit_vector);
}

/// A stop for a filter of system calls tells the system call, and what the filter said.
pub proof fn law_seccomp_stop_tells_the_filter(
    p: ProcessControlBlock,
    message: usize,
    rsp: usize,
    pid: RawPid,
)
    ensures
        ({
            let code = crate::ptrace::report::event_code(
                PtraceEvent::Seccomp,
                Signal { nr: Signal::SIGTRAP },
            );
            let stopped = p.with_ptrace_state(
                p.ptrace_state.with_event_message(message),
            ).standing_still(
                code,
                rsp,
                Some(crate::ptrace::report::trap_siginfo(pid, code as i32)),
            );
            &&& syscall_op(stopped.ptrace_state) == PtraceSyscallInfoOp::Seccomp
            &&& stopped.ptrace_state.event_message == message
        }),
{
    reveal(ProcessControlBlock::spec_not_trapping);
    reveal(ProcessControlBlock::spec_standing_still);
    assert((((7usize << 8usize) | 5usize) as i32) >> 8i32 == 7i32 && (((7usize << 8usize)
        | 5usize) as i32) & 0xff == 5i32) by (bit_vector);
}

/// What is told of a task in no system call: the architecture, where it is, and nothing else.
pub proof fn law_task_outside_of_system_calls(
    info: PtraceSyscallInfo,
    arch: u32,
    ip: u64,
    sp: u64,
)
    requires
        info.is_outside(arch, ip, sp),
    ensures
        info.op == PtraceSyscallInfoOp::Outside,
        info.pad@ == seq![0u8, 0u8, 0u8],
        info.arch == arch,
        info.instruction_pointer == ip,
        info.stack_pointer == sp,
        info.data == PtraceSyscallInfoData::Empty,
        AUDIT_ARCH_X86_64 == 0xC000_003E,
{
}

} // verus!
