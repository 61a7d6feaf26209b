//! The requests, events and options of tracing.
use crate::error::SystemError;
use vstd::prelude::*;

verus! {

/// What a tracer asks for.
#[derive(Debug, Clone, Copy, PartialEq, Eq, Structural)]
pub enum PtraceRequest {
    Traceme,
    Peektext,
    Peekdata,
    Peekuser,
    Poketext,
    Pokedata,
    Pokeuser,
    Cont,
    Kill,
    Singlestep,
    Getregs,
    Setregs,
    Attach,
    Detach,
    Syscall,
    Sysemu,
    SysemuSinglestep,
    Setoptions,
    Geteventmsg,
    Getsiginfo,
    Setsiginfo,
    Getregset,
    Setregset,
    Seize,
    Interrupt,
    Listen,
    Getsigmask,
    Setsigmask,
    Getsyscallinfo,
}

impl PtraceRequest {
    /// The number by which user space names the request.
    pub open spec fn number(self) -> usize {
        match self {
            PtraceRequest::Traceme => 0,
            PtraceRequest::Peektext => 1,
            PtraceRequest::Peekdata => 2,
            PtraceRequest::Peekuser => 3,
            PtraceRequest::Poketext => 4,
            PtraceRequest::Pokedata => 5,
            PtraceRequest::Pokeuser => 6,
            PtraceRequest::Cont => 7,
            PtraceRequest::Kill => 8,
            PtraceRequest::Singlestep => 9,
            PtraceRequest::Getregs => 12,
            PtraceRequest::Setregs => 13,
            PtraceRequest::Attach => 16,
            PtraceRequest::Detach => 17,
            PtraceRequest::Syscall => 24,
            PtraceRequest::Sysemu => 31,
            PtraceRequest::SysemuSinglestep => 32,
            PtraceRequest::Setoptions => 0x4200,
            PtraceRequest::Geteventmsg => 0x4201,
            PtraceRequest::Getsiginfo => 0x4202,
            PtraceRequest::Setsiginfo => 0x4203,
            PtraceRequest::Getregset => 0x4204,
            PtraceRequest::Setregset => 0x4205,
            PtraceRequest::Seize => 0x4206,
            PtraceRequest::Interrupt => 0x4207,
            PtraceRequest::Listen => 0x4208,
            PtraceRequest::Getsigmask => 0x420a,
            PtraceRequest::Setsigmask => 0x420b,
            PtraceRequest::Getsyscallinfo => 0x420e,
        }
    }

    /// The request that user space names by `value`; a number that names none is
    /// an invalid argument.
    pub fn try_from(value: usize) -> (request: Result<PtraceRequest, SystemError>)
        ensures
            match request {
                Ok(r) => r.number() == value,
                Err(e) => e == SystemError::EINVAL && forall|r: PtraceRequest|
                    #[trigger] r.number() != value,
            },
    {
        match value {
            0 => Ok(PtraceRequest::Traceme),
            1 => Ok(PtraceRequest::Peektext),
            2 => Ok(PtraceRequest::Peekdata),
            3 => Ok(PtraceRequest::Peekuser),
            4 => Ok(PtraceRequest::Poketext),
            5 => Ok(PtraceRequest::Pokedata),
            6 => Ok(PtraceRequest::Pokeuser),
            7 => Ok(PtraceRequest::Cont),
            8 => Ok(PtraceRequest::Kill),
            9 => Ok(PtraceRequest::Singlestep),
            12 => Ok(PtraceRequest::Getregs),
            13 => Ok(PtraceRequest::Setregs),
            16 => Ok(PtraceRequest::Attach),
            17 => Ok(PtraceRequest::Detach),
            24 => Ok(PtraceRequest::Syscall),
            31 => Ok(PtraceRequest::Sysemu),
            32 => Ok(PtraceRequest::SysemuSinglestep),
            0x4200 => Ok(PtraceRequest::Setoptions),
            0x4201 => Ok(PtraceRequest::Geteventmsg),
            0x4202 => Ok(PtraceRequest::Getsiginfo),
            0x4203 => Ok(PtraceRequest::Setsiginfo),
            0x4204 => Ok(PtraceRequest::Getregset),
            0x4205 => Ok(PtraceRequest::Setregset),
            0x4206 => Ok(PtraceRequest::Seize),
            0x4207 => Ok(PtraceRequest::Interrupt),
            0x4208 => Ok(PtraceRequest::Listen),
            0x420a => Ok(PtraceRequest::Getsigmask),
            0x420b => Ok(PtraceRequest::Setsigmask),
            0x420e => Ok(PtraceRequest::Getsyscallinfo),
            _ => Err(SystemError::EINVAL),
        }
    }
}

/// No two requests have the same number.
pub proof fn law_request_numbers_differ(a: PtraceRequest, b: PtraceRequest)
    ensures
        a.number() == b.number() <==> a == b,
{
}

/// What a tracer can be told of.
#[derive(Debug, Clone, Copy, PartialEq, Eq, Structural)]
pub enum PtraceEvent {
    Fork,
    VFork,
    Clone,
    Exec,
    VForkDone,
    Exit,
    Seccomp,
    /// A stop of a tracee that was seized.
    Stop,
}

impl PtraceEvent {
    pub open spec fn spec_number(self) -> u32 {
        match self {
            PtraceEvent::Fork => 1,
            PtraceEvent::VFork => 2,
            PtraceEvent::Clone => 3,
            PtraceEvent::Exec => 4,
            PtraceEvent::VForkDone => 5,
            PtraceEvent::Exit => 6,
            PtraceEvent::Seccomp => 7,
            PtraceEvent::Stop => 128,
        }
    }

    /// The number by which user space names the event.
    #[verifier::when_used_as_spec(spec_number)]
    pub fn number(self) -> (n: u32)
        ensures
            n == self.number(),
    {
        match self {
            PtraceEvent::Fork => 1,
            PtraceEvent::VFork => 2,
            PtraceEvent::Clone => 3,
            PtraceEvent::Exec => 4,
            PtraceEvent::VForkDone => 5,
            PtraceEvent::Exit => 6,
            PtraceEvent::Seccomp => 7,
            PtraceEvent::Stop => 128,
        }
    }
}

/// The message of a stop at the entry of a system call.
pub const PTRACE_EVENTMSG_SYSCALL_ENTRY: usize = 1;

/// The message of a stop at the exit of a system call.
pub const PTRACE_EVENTMSG_SYSCALL_EXIT: usize = 2;

/// The code of a trap by a breakpoint instruction.
pub const TRAP_BRKPT: i32 = 1;

/// The code of a trap by a single step.
pub const TRAP_TRACE: i32 = 2;

/// The code of a trap by a branch.
pub const TRAP_BRANCH: i32 = 3;

/// The code of a trap by a hardware breakpoint.
pub const TRAP_HWBKPT: i32 = 4;

/// The single-step bit of debug register 6.
pub const X86_DR_BS: u64 = 0x4000;

/// The bits of debug register 6 for the four hardware breakpoints.
pub const X86_DR_B_MASK: u64 = 0x0f;

/// The type of the note that holds the general registers.
pub const NT_PRSTATUS: u32 = 1;

/// What a tracer wants to be told of.
#[derive(Debug, Clone, Copy, Default, PartialEq, Eq, Structural)]
pub struct PtraceOptions {
    pub bits: usize,
}

impl PtraceOptions {
    /// Mark the stops at system calls.
    pub const TRACESYSGOOD: usize = 0x01;

    pub const TRACEFORK: usize = 0x02;

    pub const TRACEVFORK: usize = 0x04;

    pub const TRACECLONE: usize = 0x08;

    pub const TRACEEXEC: usize = 0x10;

    pub const TRACEVFORKDONE: usize = 0x20;

    pub const TRACEEXIT: usize = 0x40;

    pub const TRACESECCOMP: usize = 0x80;

    /// Kill the tracee when its tracer exits.
    pub const EXITKILL: usize = 0x10_0000;

    pub const SUSPEND_SECCOMP: usize = 0x20_0000;

    pub open spec fn spec_contains(self, mask: usize) -> bool {
        self.bits & mask == mask
    }

    /// Whether every bit of `mask` is set.
    #[verifier::when_used_as_spec(spec_contains)]
    pub fn contains(self, mask: usize) -> (b: bool)
        ensures
            b == self.contains(mask),
    {
        self.bits & mask == mask
    }

    /// The option that asks for an event; a stop needs none.
    pub open spec fn for_event(event: PtraceEvent) -> Option<usize> {
        match event {
            PtraceEvent::Fork => Some(PtraceOptions::TRACEFORK),
            PtraceEvent::VFork => Some(PtraceOptions::TRACEVFORK),
            PtraceEvent::Clone => Some(PtraceOptions::TRACECLONE),
            PtraceEvent::Exec => Some(PtraceOptions::TRACEEXEC),
            PtraceEvent::VForkDone => Some(PtraceOptions::TRACEVFORKDONE),
            PtraceEvent::Exit => Some(PtraceOptions::TRACEEXIT),
            PtraceEvent::Seccomp => Some(PtraceOptions::TRACESECCOMP),
            PtraceEvent::Stop => None,
        }
    }
}

} // verus!
