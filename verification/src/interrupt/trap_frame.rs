//! The registers of a task as they are saved on entry to the kernel.
use vstd::prelude::*;

verus! {

/// The saved registers of user mode.
#[derive(Debug, Clone, Copy, PartialEq, Eq, Structural)]
pub struct TrapFrame {
    pub r15: u64,
    pub r14: u64,
    pub r13: u64,
    pub r12: u64,
    pub r11: u64,
    pub r10: u64,
    pub r9: u64,
    pub r8: u64,
    pub rbx: u64,
    pub rcx: u64,
    pub rdx: u64,
    pub rsi: u64,
    pub rdi: u64,
    pub rbp: u64,
    pub ds: u64,
    pub es: u64,
    pub rax: u64,
    pub func: u64,
    /// The error code of an exception, or the number of a system call.
    pub errcode: u64,
    pub rip: u64,
    pub cs: u64,
    pub rflags: u64,
    pub rsp: u64,
    pub ss: u64,
}

/// The number of bytes that a saved register set takes up on a stack.
pub const TRAP_FRAME_SIZE: usize = 192;

impl TrapFrame {
    /// A frame with every register zero.
    pub fn new() -> (frame: TrapFrame)
        ensures
            frame == (TrapFrame {
                r15: 0,
                r14: 0,
                r13: 0,
                r12: 0,
                r11: 0,
                r10: 0,
                r9: 0,
                r8: 0,
                rbx: 0,
                rcx: 0,
                rdx: 0,
                rsi: 0,
                rdi: 0,
                rbp: 0,
                ds: 0,
                es: 0,
                rax: 0,
                func: 0,
                errcode: 0,
                rip: 0,
                cs: 0,
                rflags: 0,
                rsp: 0,
                ss: 0,
            }),
    {
        TrapFrame {
            r15: 0,
            r14: 0,
            r13: 0,
            r12: 0,
            r11: 0,
            r10: 0,
            r9: 0,
            r8: 0,
            rbx: 0,
            rcx: 0,
            rdx: 0,
            rsi: 0,
            rdi: 0,
            rbp: 0,
            ds: 0,
            es: 0,
            rax: 0,
            func: 0,
            errcode: 0,
            rip: 0,
            cs: 0,
            rflags: 0,
            rsp: 0,
            ss: 0,
        }
    }

    pub open spec fn spec_is_from_user(&self) -> bool {
        self.cs & 0x3 != 0
    }

    /// Whether the processor was in user mode.
    #[verifier::when_used_as_spec(spec_is_from_user)]
    pub fn is_from_user(&self) -> (b: bool)
        ensures
            b == self.is_from_user(),
    {
        self.cs & 0x3 != 0
    }
}

/// A stack that the kernel uses on behalf of a task: the addresses from `start`
/// up to, but not including, `max`.
#[derive(Debug, Clone, Copy, PartialEq, Eq, Structural)]
pub struct KernelStack {
    pub start: usize,
    pub max: usize,
}

impl KernelStack {
    pub open spec fn spec_holds(&self, addr: usize) -> bool {
        self.start <= addr < self.max
    }

    /// Whether `addr` lies on this stack.
    #[verifier::when_used_as_spec(spec_holds)]
    pub fn holds(&self, addr: usize) -> (b: bool)
        ensures
            b == self.holds(addr),
    {
        self.start <= addr && addr < self.max
    }
}

} // verus!
