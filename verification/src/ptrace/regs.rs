//! The user registers of a task as its tracer sees them.
use crate::error::SystemError;
use crate::interrupt::trap_frame::{KernelStack, TrapFrame, TRAP_FRAME_SIZE};
use crate::process::manager::ProcessManager;
use crate::process::pcb::{ProcessControlBlock, TaskId};
use crate::ptrace::state::PtraceState;
use vstd::prelude::*;

verus! {

/// The registers of user mode, in the layout of the user area.
#[derive(Debug, Clone, Copy, Default, PartialEq, Eq, Structural)]
pub struct UserRegsStruct {
    pub r15: u64,
    pub r14: u64,
    pub r13: u64,
    pub r12: u64,
    pub bp: u64,
    pub bx: u64,
    pub r11: u64,
    pub r10: u64,
    pub r9: u64,
    pub r8: u64,
    pub ax: u64,
    pub cx: u64,
    pub dx: u64,
    pub si: u64,
    pub di: u64,
    /// The number of the system call.
    pub orig_ax: u64,
    pub ip: u64,
    pub cs: u64,
    pub flags: u64,
    pub sp: u64,
    pub ss: u64,
    pub fs_base: u64,
    pub gs_base: u64,
    pub ds: u64,
    pub es: u64,
    pub fs: u64,
    pub gs: u64,
}

/// The flags that a tracer may change.
pub const FLAG_MASK: u64 = 0x0005_4dd5;

/// The flag that makes the processor trap after each instruction.
pub const X86_EFLAGS_TF: u64 = 0x100;

/// The size of the user area.
pub const SIZEOF_USER: usize = 928;

/// Where the debug registers are in the user area.
pub const DR_OFFSET: usize = 848;

/// The size of the general registers in the user area.
pub const GP_REGS_SIZE: usize = 216;

/// The bits of debug register 6 that are kept with the opposite sense.
pub const DR6_RESERVED: u64 = 0xffff_0ff0;

impl UserRegsStruct {
    /// The register in the `i`-th word.
    pub open spec fn spec_word(&self, i: usize) -> u64 {
        match i {
            0 => self.r15,
            1 => self.r14,
            2 => self.r13,
            3 => self.r12,
            4 => self.bp,
            5 => self.bx,
            6 => self.r11,
            7 => self.r10,
            8 => self.r9,
            9 => self.r8,
            10 => self.ax,
            11 => self.cx,
            12 => self.dx,
            13 => self.si,
            14 => self.di,
            15 => self.orig_ax,
            16 => self.ip,
            17 => self.cs,
            18 => self.flags,
            19 => self.sp,
            20 => self.ss,
            21 => self.fs_base,
            22 => self.gs_base,
            23 => self.ds,
            24 => self.es,
            25 => self.fs,
            _ => self.gs,
        }
    }

    /// The register in the `i`-th word.
    #[verifier::when_used_as_spec(spec_word)]
    pub fn word(&self, i: usize) -> (val: u64)
        ensures
            val == self.word(i),
    {
        match i {
            0 => self.r15,
            1 => self.r14,
            2 => self.r13,
            3 => self.r12,
            4 => self.bp,
            5 => self.bx,
            6 => self.r11,
            7 => self.r10,
            8 => self.r9,
            9 => self.r8,
            10 => self.ax,
            11 => self.cx,
            12 => self.dx,
            13 => self.si,
            14 => self.di,
            15 => self.orig_ax,
            16 => self.ip,
            17 => self.cs,
            18 => self.flags,
            19 => self.sp,
            20 => self.ss,
            21 => self.fs_base,
            22 => self.gs_base,
            23 => self.ds,
            24 => self.es,
            25 => self.fs,
            _ => self.gs,
        }
    }

    pub open spec fn spec_with_word(&self, i: usize, val: u64) -> UserRegsStruct {
        match i {
            0 => UserRegsStruct { r15: val, ..*self },
            1 => UserRegsStruct { r14: val, ..*self },
            2 => UserRegsStruct { r13: val, ..*self },
            3 => UserRegsStruct { r12: val, ..*self },
            4 => UserRegsStruct { bp: val, ..*self },
            5 => UserRegsStruct { bx: val, ..*self },
            6 => UserRegsStruct { r11: val, ..*self },
            7 => UserRegsStruct { r10: val, ..*self },
            8 => UserRegsStruct { r9: val, ..*self },
            9 => UserRegsStruct { r8: val, ..*self },
            10 => UserRegsStruct { ax: val, ..*self },
            11 => UserRegsStruct { cx: val, ..*self },
            12 => UserRegsStruct { dx: val, ..*self },
            13 => UserRegsStruct { si: val, ..*self },
            14 => UserRegsStruct { di: val, ..*self },
            15 => UserRegsStruct { orig_ax: val, ..*self },
            16 => UserRegsStruct { ip: val, ..*self },
            17 => UserRegsStruct { cs: val, ..*self },
            18 => UserRegsStruct { flags: val, ..*self },
            19 => UserRegsStruct { sp: val, ..*self },
            20 => UserRegsStruct { ss: val, ..*self },
            21 => UserRegsStruct { fs_base: val, ..*self },
            22 => UserRegsStruct { gs_base: val, ..*self },
            23 => UserRegsStruct { ds: val, ..*self },
            24 => UserRegsStruct { es: val, ..*self },
            25 => UserRegsStruct { fs: val, ..*self },
            _ => UserRegsStruct { gs: val, ..*self },
        }
    }

    /// The registers with another one in the `i`-th word.
    #[verifier::when_used_as_spec(spec_with_word)]
    pub fn with_word(&self, i: usize, val: u64) -> (regs: UserRegsStruct)
        ensures
            regs == self.with_word(i, val),
    {
        match i {
            0 => UserRegsStruct { r15: val, ..*self },
            1 => UserRegsStruct { r14: val, ..*self },
            2 => UserRegsStruct { r13: val, ..*self },
            3 => UserRegsStruct { r12: val, ..*self },
            4 => UserRegsStruct { bp: val, ..*self },
            5 => UserRegsStruct { bx: val, ..*self },
            6 => UserRegsStruct { r11: val, ..*self },
            7 => UserRegsStruct { r10: val, ..*self },
            8 => UserRegsStruct { r9: val, ..*self },
            9 => UserRegsStruct { r8: val, ..*self },
            10 => UserRegsStruct { ax: val, ..*self },
            11 => UserRegsStruct { cx: val, ..*self },
            12 => UserRegsStruct { dx: val, ..*self },
            13 => UserRegsStruct { si: val, ..*self },
            14 => UserRegsStruct { di: val, ..*self },
            15 => UserRegsStruct { orig_ax: val, ..*self },
            16 => UserRegsStruct { ip: val, ..*self },
            17 => UserRegsStruct { cs: val, ..*self },
            18 => UserRegsStruct { flags: val, ..*self },
            19 => UserRegsStruct { sp: val, ..*self },
            20 => UserRegsStruct { ss: val, ..*self },
            21 => UserRegsStruct { fs_base: val, ..*self },
            22 => UserRegsStruct { gs_base: val, ..*self },
            23 => UserRegsStruct { ds: val, ..*self },
            24 => UserRegsStruct { es: val, ..*self },
            25 => UserRegsStruct { fs: val, ..*self },
            _ => UserRegsStruct { gs: val, ..*self },
        }
    }

    pub open spec fn spec_from_trap_frame(frame: &TrapFrame) -> UserRegsStruct {
        UserRegsStruct {
            r15: frame.r15,
            r14: frame.r14,
            r13: frame.r13,
            r12: frame.r12,
            bp: frame.rbp,
            bx: frame.rbx,
            r11: frame.r11,
            r10: frame.r10,
            r9: frame.r9,
            r8: frame.r8,
            ax: frame.rax,
            cx: frame.rcx,
            dx: frame.rdx,
            si: frame.rsi,
            di: frame.rdi,
            orig_ax: frame.errcode,
            ip: frame.rip,
            cs: frame.cs,
            flags: frame.rflags,
            sp: frame.rsp,
            ss: frame.ss,
            fs_base: 0,
            gs_base: 0,
            ds: frame.ds,
            es: frame.es,
            fs: 0,
            gs: 0,
        }
    }

    /// The registers that were saved on entry to the kernel.
    #[verifier::when_used_as_spec(spec_from_trap_frame)]
    pub fn from_trap_frame(frame: &TrapFrame) -> (regs: UserRegsStruct)
        ensures
            regs == UserRegsStruct::from_trap_frame(frame),
    {
        UserRegsStruct {
            r15: frame.r15,
            r14: frame.r14,
            r13: frame.r13,
            r12: frame.r12,
            bp: frame.rbp,
            bx: frame.rbx,
            r11: frame.r11,
            r10: frame.r10,
            r9: frame.r9,
            r8: frame.r8,
            ax: frame.rax,
            cx: frame.rcx,
            dx: frame.rdx,
            si: frame.rsi,
            di: frame.rdi,
            orig_ax: frame.errcode,
            ip: frame.rip,
            cs: frame.cs,
            flags: frame.rflags,
            sp: frame.rsp,
            ss: frame.ss,
            fs_base: 0,
            gs_base: 0,
            ds: frame.ds,
            es: frame.es,
            fs: 0,
            gs: 0,
        }
    }

    pub open spec fn spec_is_user_mode(&self) -> bool {
        self.cs & 0x3 == 3 && self.cs != 0 && self.ss & 0x3 == 3 && self.ss != 0
    }

    /// Whether the segments are those of user mode.
    #[verifier::when_used_as_spec(spec_is_user_mode)]
    pub fn is_user_mode(&self) -> (b: bool)
        ensures
            b == self.is_user_mode(),
    {
        self.cs & 0x3 == 3 && self.cs != 0 && self.ss & 0x3 == 3 && self.ss != 0
    }

    pub open spec fn spec_written_to(&self, frame: &TrapFrame) -> TrapFrame {
        TrapFrame {
            r15: self.r15,
            r14: self.r14,
            r13: self.r13,
            r12: self.r12,
            rbp: self.bp,
            rbx: self.bx,
            r11: self.r11,
            r10: self.r10,
            r9: self.r9,
            r8: self.r8,
            rax: self.ax,
            rcx: self.cx,
            rdx: self.dx,
            rsi: self.si,
            rdi: self.di,
            errcode: self.orig_ax,
            rip: self.ip,
            cs: self.cs,
            rsp: self.sp,
            ss: self.ss,
            ds: self.ds,
            es: self.es,
            rflags: (frame.rflags & !FLAG_MASK) | (self.flags & FLAG_MASK),
            ..*frame
        }
    }

    /// A register set that was saved on entry to the kernel, with these registers in
    /// it. Of the flags only those change that a tracer may change.
    #[verifier::when_used_as_spec(spec_written_to)]
    pub fn written_to(&self, frame: &TrapFrame) -> (written: TrapFrame)
        ensures
            written == self.written_to(frame),
    {
        TrapFrame {
            r15: self.r15,
            r14: self.r14,
            r13: self.r13,
            r12: self.r12,
            rbp: self.bp,
            rbx: self.bx,
            r11: self.r11,
            r10: self.r10,
            r9: self.r9,
            r8: self.r8,
            rax: self.ax,
            rcx: self.cx,
            rdx: self.dx,
            rsi: self.si,
            rdi: self.di,
            errcode: self.orig_ax,
            rip: self.ip,
            cs: self.cs,
            rsp: self.sp,
            ss: self.ss,
            ds: self.ds,
            es: self.es,
            rflags: (frame.rflags & !FLAG_MASK) | (self.flags & FLAG_MASK),
            ..*frame
        }
    }

    /// Writes the registers to a register set that was saved on entry to the kernel.
    /// Segments that are not those of user mode are refused.
    pub fn write_to_trap_frame(&self, frame: &mut TrapFrame) -> (res: Result<(), SystemError>)
        ensures
            match res {
                Ok(()) => self.is_user_mode() && *final(frame) == self.written_to(old(frame)),
                Err(e) => e == SystemError::EIO && !self.is_user_mode() && *final(frame)
                    == *old(frame),
            },
    {
        if !self.is_user_mode() {
            return Err(SystemError::EIO);
        }
        *frame = self.written_to(frame);
        Ok(())
    }
}

/// A stack has room for a register set that was saved on entry to the kernel.
pub open spec fn holds_frame(stack: KernelStack) -> bool {
    stack.max >= TRAP_FRAME_SIZE + 8
}

impl PtraceState {
    pub open spec fn spec_with_forced_trap_flag(&self, v: bool) -> PtraceState {
        PtraceState { forced_trap_flag: v, ..*self }
    }

    /// The state as the trap flag was set by the tracer, or not.
    #[verifier::when_used_as_spec(spec_with_forced_trap_flag)]
    pub fn with_forced_trap_flag(&self, v: bool) -> (state: PtraceState)
        ensures
            state == self.with_forced_trap_flag(v),
    {
        PtraceState { forced_trap_flag: v, ..*self }
    }
}

impl ProcessControlBlock {
    /// Where the saved registers are on a kernel stack.
    pub fn trap_frame_ptr_on_kernel_stack(stack: &KernelStack) -> (addr: usize)
        requires
            holds_frame(*stack),
        ensures
            addr == stack.max - TRAP_FRAME_SIZE,
    {
        stack.max - TRAP_FRAME_SIZE
    }

    /// Where the saved registers are on a system call stack, whose uppermost word is
    /// reserved.
    pub fn trap_frame_ptr_on_syscall_stack(stack: &KernelStack) -> (addr: usize)
        requires
            holds_frame(*stack),
        ensures
            addr == stack.max - 8 - TRAP_FRAME_SIZE,
    {
        stack.max - 8 - TRAP_FRAME_SIZE
    }

    /// Where the saved registers of the current stop are.
    pub fn tracee_trap_frame_ptr(&self) -> (addr: usize)
        requires
            holds_frame(self.kernel_stack),
            holds_frame(self.syscall_stack),
        ensures
            addr == if self.ptrace_state.stop_frame_on_syscall_stack {
                self.syscall_stack.max - 8 - TRAP_FRAME_SIZE
            } else {
                self.kernel_stack.max - TRAP_FRAME_SIZE
            },
    {
        if self.ptrace_state.stop_frame_on_syscall_stack {
            Self::trap_frame_ptr_on_syscall_stack(&self.syscall_stack)
        } else {
            Self::trap_frame_ptr_on_kernel_stack(&self.kernel_stack)
        }
    }

    pub open spec fn spec_stop_frame(&self) -> TrapFrame {
        if self.ptrace_state.stop_frame_on_syscall_stack {
            self.syscall_frame
        } else {
            self.kernel_frame
        }
    }

    /// The registers that were saved for the current stop.
    #[verifier::when_used_as_spec(spec_stop_frame)]
    pub fn stop_frame(&self) -> (frame: TrapFrame)
        ensures
            frame == self.stop_frame(),
    {
        if self.ptrace_state.stop_frame_on_syscall_stack {
            self.syscall_frame
        } else {
            self.kernel_frame
        }
    }

    pub open spec fn spec_with_stop_frame(&self, frame: TrapFrame) -> ProcessControlBlock {
        if self.ptrace_state.stop_frame_on_syscall_stack {
            ProcessControlBlock { syscall_frame: frame, ..*self }
        } else {
            ProcessControlBlock { kernel_frame: frame, ..*self }
        }
    }

    /// The task with other registers saved for the current stop.
    #[verifier::when_used_as_spec(spec_with_stop_frame)]
    pub fn with_stop_frame(&self, frame: TrapFrame) -> (pcb: ProcessControlBlock)
        ensures
            pcb == self.with_stop_frame(frame),
    {
        if self.ptrace_state.stop_frame_on_syscall_stack {
            ProcessControlBlock { syscall_frame: frame, ..*self }
        } else {
            ProcessControlBlock { kernel_frame: frame, ..*self }
        }
    }

    pub open spec fn spec_with_ptrace_state(
        &self,
        ptrace_state: PtraceState,
    ) -> ProcessControlBlock {
        ProcessControlBlock { ptrace_state, ..*self }
    }

    /// The task in another tracing state.
    #[verifier::when_used_as_spec(spec_with_ptrace_state)]
    pub fn with_ptrace_state(&self, ptrace_state: PtraceState) -> (pcb: ProcessControlBlock)
        ensures
            pcb == self.with_ptrace_state(ptrace_state),
    {
        ProcessControlBlock { ptrace_state, ..*self }
    }

    pub open spec fn spec_tracee_user_regs(&self) -> UserRegsStruct {
        UserRegsStruct::from_trap_frame(&self.stop_frame())
    }

    /// The user registers of a task that is stopped.
    #[verifier::when_used_as_spec(spec_tracee_user_regs)]
    pub fn tracee_user_regs(&self) -> (regs: UserRegsStruct)
        ensures
            regs == self.tracee_user_regs(),
    {
        UserRegsStruct::from_trap_frame(&self.stop_frame())
    }

    pub open spec fn spec_with_user_regs(&self, regs: UserRegsStruct) -> ProcessControlBlock {
        let frame = regs.written_to(&self.stop_frame());
        if frame.rflags & X86_EFLAGS_TF != 0 {
            self.with_stop_frame(frame).with_ptrace_state(
                self.ptrace_state.with_forced_trap_flag(false),
            )
        } else if self.ptrace_state.forced_trap_flag {
            self.with_stop_frame(
                TrapFrame { rflags: frame.rflags | X86_EFLAGS_TF, ..frame },
            )
        } else {
            self.with_stop_frame(frame)
        }
    }

    /// The task with other user registers. A trap flag that the registers have is the
    /// own one of the task from now on; one that the tracer has set stays.
    #[verifier::when_used_as_spec(spec_with_user_regs)]
    pub fn with_user_regs(&self, regs: UserRegsStruct) -> (pcb: ProcessControlBlock)
        ensures
            pcb == self.with_user_regs(regs),
    {
        let frame = regs.written_to(&self.stop_frame());
        if frame.rflags & X86_EFLAGS_TF != 0 {
            self.with_stop_frame(frame).with_ptrace_state(
                self.ptrace_state.with_forced_trap_flag(false),
            )
        } else if self.ptrace_state.forced_trap_flag {
            self.with_stop_frame(
                TrapFrame { rflags: frame.rflags | X86_EFLAGS_TF, ..frame },
            )
        } else {
            self.with_stop_frame(frame)
        }
    }

    /// Writes the user registers of a task that is stopped. Segments that are not those
    /// of user mode are refused.
    pub fn write_tracee_user_regs(
        pm: &mut ProcessManager,
        tracee: TaskId,
        regs: &UserRegsStruct,
    ) -> (res: Result<(), SystemError>)
        requires
            old(pm)@.has(tracee),
        ensures
            match res {
                Ok(()) => regs.is_user_mode() && final(pm)@ == old(pm)@.with_task(
                    tracee,
                    old(pm)@.task(tracee).with_user_regs(*regs),
                ),
                Err(e) => e == SystemError::EIO && !regs.is_user_mode() && final(pm)@
                    == old(pm)@,
            },
    {
        if !regs.is_user_mode() {
            return Err(SystemError::EIO);
        }
        let p = pm.task(tracee).with_user_regs(*regs);
        pm.set_task(tracee, p);
        Ok(())
    }

    /// The word at an offset of the user area, where there is one.
    pub open spec fn user_word(self, offset: usize) -> Option<u64> {
        if offset % 8 != 0 || offset + 8 > SIZEOF_USER {
            None
        } else if offset < GP_REGS_SIZE {
            Some(self.tracee_user_regs().word(offset / 8))
        } else if DR_OFFSET <= offset < DR_OFFSET + 64 {
            Some(self.debug_reg((offset - DR_OFFSET) / 8))
        } else {
            Some(0)
        }
    }

    /// A debug register as the tracer sees it.
    pub open spec fn debug_reg(self, i: int) -> u64 {
        if i == 6 {
            self.ptrace_state.debug_regs@[i] ^ DR6_RESERVED
        } else {
            self.ptrace_state.debug_regs@[i]
        }
    }

    /// Reads a word of the user area: a general register, a debug register, or 0 where
    /// there is neither.
    pub fn ptrace_peek_user(&self, offset: usize) -> (res: Result<u64, SystemError>)
        ensures
            match res {
                Ok(val) => self.user_word(offset) == Some(val),
                Err(e) => e == SystemError::EIO && self.user_word(offset) is None,
            },
    {
        if offset % 8 != 0 {
            return Err(SystemError::EIO);
        }
        if offset > SIZEOF_USER - 8 {
            return Err(SystemError::EIO);
        }
        if offset < GP_REGS_SIZE {
            return Ok(self.tracee_user_regs().word(offset / 8));
        }
        if DR_OFFSET <= offset && offset < DR_OFFSET + 64 {
            let idx: usize = (offset - DR_OFFSET) / 8;
            let mut val: u64 = self.ptrace_state.debug_regs[idx];
            if idx == 6 {
                val = val ^ DR6_RESERVED;
            }
            return Ok(val);
        }
        Ok(0)
    }

    /// Whether a word of the user area can be written: a general register if the
    /// segments are still those of user mode, and a debug register that there is.
    pub open spec fn accepts_user_word(self, offset: usize, val: u64) -> bool {
        &&& offset % 8 == 0
        &&& offset + 8 <= SIZEOF_USER
        &&& if offset < GP_REGS_SIZE {
            self.tracee_user_regs().with_word(offset / 8, val).is_user_mode()
        } else {
            DR_OFFSET <= offset < DR_OFFSET + 64 && offset != DR_OFFSET + 32 && offset
                != DR_OFFSET + 40
        }
    }

    /// The task with another word in its user area.
    pub open spec fn with_user_word(self, offset: usize, val: u64) -> ProcessControlBlock {
        if offset < GP_REGS_SIZE {
            self.with_user_regs(self.tracee_user_regs().with_word(offset / 8, val))
        } else {
            let idx = (offset - DR_OFFSET) / 8;
            self.with_debug_reg(
                idx,
                if idx == 6 {
                    val ^ DR6_RESERVED
                } else {
                    val
                },
            )
        }
    }

    /// The task with another debug register.
    pub open spec fn with_debug_reg(self, i: int, val: u64) -> ProcessControlBlock {
        self.with_ptrace_state(
            PtraceState {
                debug_regs: vstd::array::spec_array_update(self.ptrace_state.debug_regs, i, val),
                ..self.ptrace_state
            },
        )
    }

    /// Writes a word of the user area.
    pub fn ptrace_poke_user(
        pm: &mut ProcessManager,
        tracee: TaskId,
        offset: usize,
        val: u64,
    ) -> (res: Result<(), SystemError>)
        requires
            old(pm)@.has(tracee),
        ensures
            match res {
                Ok(()) => old(pm)@.task(tracee).accepts_user_word(offset, val) && final(pm)@
                    == old(pm)@.with_task(
                    tracee,
                    old(pm)@.task(tracee).with_user_word(offset, val),
                ),
                Err(e) => e == SystemError::EIO && !old(pm)@.task(tracee).accepts_user_word(
                    offset,
                    val,
                ) && final(pm)@ == old(pm)@,
            },
    {
        if offset % 8 != 0 {
            return Err(SystemError::EIO);
        }
        if offset > SIZEOF_USER - 8 {
            return Err(SystemError::EIO);
        }
        if offset < GP_REGS_SIZE {
            let regs = pm.task(tracee).tracee_user_regs().with_word(offset / 8, val);
            return Self::write_tracee_user_regs(pm, tracee, &regs);
        }
        if DR_OFFSET <= offset && offset < DR_OFFSET + 64 {
            let idx: usize = (offset - DR_OFFSET) / 8;
            if idx == 4 || idx == 5 {
                return Err(SystemError::EIO);
            }
            let stored: u64 = if idx == 6 {
                val ^ DR6_RESERVED
            } else {
                val
            };
            let p = pm.task(tracee);
            let mut state = p.ptrace_state;
            state.debug_regs[idx] = stored;
            pm.set_task(tracee, p.with_ptrace_state(state));
            return Ok(());
        }
        Err(SystemError::EIO)
    }
}

/// Reading the registers after they were written gives what was written, but for two
/// segment registers and their bases, which are not kept and read as 0. Of the flags a
/// tracer changes only those that it may, and a trap flag that it has set for single steps
/// stays.
pub proof fn law_setregs_then_getregs(p: ProcessControlBlock, regs: UserRegsStruct)
    requires
        regs.is_user_mode(),
    ensures
        ({
            let got = p.with_user_regs(regs).tracee_user_regs();
            &&& got == (UserRegsStruct {
                flags: got.flags,
                fs_base: 0,
                gs_base: 0,
                fs: 0,
                gs: 0,
                ..regs
            })
            &&& got.flags & !FLAG_MASK == p.stop_frame().rflags & !FLAG_MASK
            &&& got.flags & FLAG_MASK == if p.ptrace_state.forced_trap_flag {
                (regs.flags & FLAG_MASK) | X86_EFLAGS_TF
            } else {
                regs.flags & FLAG_MASK
            }
        }),
{
    let old = p.stop_frame().rflags;
    let new = regs.flags;
    let merged = (old & !FLAG_MASK) | (new & FLAG_MASK);
    assert(merged == (old & !0x0005_4dd5u64) | (new & 0x0005_4dd5u64) ==> merged & !0x0005_4dd5u64
        == old & !0x0005_4dd5u64 && merged & 0x0005_4dd5u64 == new & 0x0005_4dd5u64 && (merged
        | 0x100u64) & !0x0005_4dd5u64 == merged & !0x0005_4dd5u64 && (merged | 0x100u64)
        & 0x0005_4dd5u64 == (merged & 0x0005_4dd5u64) | 0x100u64 && (merged & 0x100u64 != 0 ==> (
    merged & 0x0005_4dd5u64) | 0x100u64 == merged & 0x0005_4dd5u64)) by (bit_vector);
}

/// Whatever registers a tracer may write, the task stays in user mode, and flags that the
/// tracer may not change, such as the one that lets interrupts in, stay.
pub proof fn law_written_registers_stay_in_user_mode(frame: TrapFrame, regs: UserRegsStruct)
    requires
        regs.is_user_mode(),
    ensures
        regs.written_to(&frame).is_from_user(),
        regs.written_to(&frame).rflags & 0x200 == frame.rflags & 0x200,
{
    let old = frame.rflags;
    let new = regs.flags;
    let cs = regs.cs;
    assert(cs & 0x3 == 3 ==> cs & 0x3 != 0) by (bit_vector);
    assert(((old & !0x0005_4dd5u64) | (new & 0x0005_4dd5u64)) & 0x200u64 == old & 0x200u64)
        by (bit_vector);
}

/// Reading a word of the user area after it was written gives what was written, but for two
/// segment registers and their bases, which are not kept and read as 0, and for the flags,
/// of which a tracer changes only those that it may.
pub proof fn law_poke_then_peek_user(p: ProcessControlBlock, offset: usize, val: u64)
    requires
        p.accepts_user_word(offset, val),
    ensures
        ({
            let got = p.with_user_word(offset, val).user_word(offset);
            let i = offset / 8;
            &&& got is Some
            &&& if i == 18 {
                &&& got->Some_0 & !FLAG_MASK == p.stop_frame().rflags & !FLAG_MASK
                &&& got->Some_0 & FLAG_MASK == if p.ptrace_state.forced_trap_flag {
                    (val & FLAG_MASK) | X86_EFLAGS_TF
                } else {
                    val & FLAG_MASK
                }
            } else if i == 21 || i == 22 || i == 25 || i == 26 {
                got == Some(0u64)
            } else {
                got == Some(val)
            }
        }),
{
    assert((val ^ 0xffff_0ff0u64) ^ 0xffff_0ff0u64 == val) by (bit_vector);
    let i = offset / 8;
    if offset < GP_REGS_SIZE {
        assert(i < 27);
        law_setregs_then_getregs(p, p.tracee_user_regs().with_word(i, val));
    }
}

/// A tracer reads each register as it was saved when the task came to its stop: on the stack of
/// system calls if the stop is in one, else on the kernel stack. Two segment registers and their
/// bases are not kept and read as 0.
pub proof fn law_registers_read_are_those_saved(p: ProcessControlBlock, frame: TrapFrame)
    requires
        p.ptrace_state.stop_frame_on_syscall_stack ==> frame == p.syscall_frame,
        !p.ptrace_state.stop_frame_on_syscall_stack ==> frame == p.kernel_frame,
    ensures
        ({
            let regs = p.tracee_user_regs();
            &&& regs.ip == frame.rip
            &&& regs.sp == frame.rsp
            &&& regs.bp == frame.rbp
            &&& regs.ax == frame.rax
            &&& regs.bx == frame.rbx
            &&& regs.cx == frame.rcx
            &&& regs.dx == frame.rdx
            &&& regs.si == frame.rsi
            &&& regs.di == frame.rdi
            &&& regs.r8 == frame.r8
            &&& regs.r9 == frame.r9
            &&& regs.r10 == frame.r10
            &&& regs.r11 == frame.r11
            &&& regs.r12 == frame.r12
            &&& regs.r13 == frame.r13
            &&& regs.r14 == frame.r14
            &&& regs.r15 == frame.r15
            &&& regs.orig_ax == frame.errcode
            &&& regs.flags == frame.rflags
            &&& regs.cs == frame.cs
            &&& regs.ss == frame.ss
            &&& regs.ds == frame.ds
            &&& regs.es == frame.es
            &&& regs.fs == 0
            &&& regs.gs == 0
            &&& regs.fs_base == 0
            &&& regs.gs_base == 0
            &&& regs == UserRegsStruct::from_trap_frame(&frame)
            &&& p.stop_frame() == frame
        }),
{
}

/// Each register that is written to a saved set is there afterwards, and what is not a register
/// stays. Of the flags those change that a tracer may change, and no others.
pub proof fn law_registers_are_saved_as_written(regs: UserRegsStruct, frame: TrapFrame)
    ensures
        ({
            let f = regs.written_to(&frame);
            &&& f.rip == regs.ip
            &&& f.rsp == regs.sp
            &&& f.rbp == regs.bp
            &&& f.rax == regs.ax
            &&& f.rbx == regs.bx
            &&& f.rcx == regs.cx
            &&& f.rdx == regs.dx
            &&& f.rsi == regs.si
            &&& f.rdi == regs.di
            &&& f.r8 == regs.r8
            &&& f.r9 == regs.r9
            &&& f.r10 == regs.r10
            &&& f.r11 == regs.r11
            &&& f.r12 == regs.r12
            &&& f.r13 == regs.r13
            &&& f.r14 == regs.r14
            &&& f.r15 == regs.r15
            &&& f.errcode == regs.orig_ax
            &&& f.cs == regs.cs
            &&& f.ss == regs.ss
            &&& f.ds == regs.ds
            &&& f.es == regs.es
            &&& f.func == frame.func
            &&& f.rflags & 0x0005_4dd5 == regs.flags & 0x0005_4dd5
            &&& f.rflags & !0x0005_4dd5 == frame.rflags & !0x0005_4dd5
        }),
{
    let old = frame.rflags;
    let new = regs.flags;
    assert(((old & !0x0005_4dd5u64) | (new & 0x0005_4dd5u64)) & 0x0005_4dd5u64 == new
        & 0x0005_4dd5u64 && ((old & !0x0005_4dd5u64) | (new & 0x0005_4dd5u64)) & !0x0005_4dd5u64
        == old & !0x0005_4dd5u64) by (bit_vector);
}

/// What a tracer writes goes to the register set that was saved for the stop, and the other set
/// stays. A trap flag among it is the own one of the task from then on; without one, a trap flag
/// that the tracer has set for single steps stays set, and stays the one of the tracer. Nothing
/// else of the task changes.
pub proof fn law_written_registers_reach_the_task(p: ProcessControlBlock, regs: UserRegsStruct)
    ensures
        ({
            let q = p.with_user_regs(regs);
            let on_syscall_stack = p.ptrace_state.stop_frame_on_syscall_stack;
            let old = if on_syscall_stack {
                p.syscall_frame
            } else {
                p.kernel_frame
            };
            let new = if on_syscall_stack {
                q.syscall_frame
            } else {
                q.kernel_frame
            };
            let own = regs.flags & 0x100 != 0;
            &&& on_syscall_stack ==> q.kernel_frame == p.kernel_frame
            &&& !on_syscall_stack ==> q.syscall_frame == p.syscall_frame
            &&& new == (TrapFrame { rflags: new.rflags, ..regs.written_to(&old) })
            &&& new.rflags & !0x0005_4dd5 == old.rflags & !0x0005_4dd5
            &&& new.rflags & 0x0005_4dd5 == if !own && p.ptrace_state.forced_trap_flag {
                (regs.flags & 0x0005_4dd5) | 0x100
            } else {
                regs.flags & 0x0005_4dd5
            }
            &&& q.ptrace_state == (PtraceState {
                forced_trap_flag: p.ptrace_state.forced_trap_flag && !own,
                ..p.ptrace_state
            })
            &&& q.flags == p.flags
            &&& q.sched_info == p.sched_info
        }),
{
    lemma_written_flags(p, regs);
}

/// What becomes of the flags when a tracer writes them.
proof fn lemma_written_flags(p: ProcessControlBlock, regs: UserRegsStruct)
    ensures
        ({
            let old = p.stop_frame().rflags;
            let merged = (old & !FLAG_MASK) | (regs.flags & FLAG_MASK);
            &&& merged & 0x100 != 0 <==> regs.flags & 0x100 != 0
            &&& merged & !0x0005_4dd5 == old & !0x0005_4dd5
            &&& merged & 0x0005_4dd5 == regs.flags & 0x0005_4dd5
            &&& (merged | 0x100) & !0x0005_4dd5 == old & !0x0005_4dd5
            &&& (merged | 0x100) & 0x0005_4dd5 == (regs.flags & 0x0005_4dd5) | 0x100
        }),
{
    let old = p.stop_frame().rflags;
    let new = regs.flags;
    let merged = (old & !FLAG_MASK) | (new & FLAG_MASK);
    assert(merged == (old & !0x0005_4dd5u64) | (new & 0x0005_4dd5u64) ==> (merged & 0x100 != 0
        <==> new & 0x100 != 0) && merged & !0x0005_4dd5u64 == old & !0x0005_4dd5u64 && merged
        & 0x0005_4dd5u64 == new & 0x0005_4dd5u64 && (merged | 0x100u64) & !0x0005_4dd5u64 == old
        & !0x0005_4dd5u64 && (merged | 0x100u64) & 0x0005_4dd5u64 == (new & 0x0005_4dd5u64)
        | 0x100u64) by (bit_vector);
}

/// The registers lie in the user area word after word in a fixed order, the debug registers
/// behind them, the sixth with the bits that are fixed turned round. The words between and
/// behind are 0, and there are no words at other offsets.
pub proof fn law_layout_of_the_user_area(p: ProcessControlBlock, frame: TrapFrame, offset: usize)
    requires
        p.ptrace_state.stop_frame_on_syscall_stack ==> frame == p.syscall_frame,
        !p.ptrace_state.stop_frame_on_syscall_stack ==> frame == p.kernel_frame,
    ensures
        p.user_word(offset) is Some <==> offset % 8 == 0 && offset < 928,
        offset % 8 == 0 && offset < 928 ==> ({
            let word = p.user_word(offset)->Some_0;
            &&& offset == 0 ==> word == frame.r15
            &&& offset == 8 ==> word == frame.r14
            &&& offset == 16 ==> word == frame.r13
            &&& offset == 24 ==> word == frame.r12
            &&& offset == 32 ==> word == frame.rbp
            &&& offset == 40 ==> word == frame.rbx
            &&& offset == 48 ==> word == frame.r11
            &&& offset == 56 ==> word == frame.r10
            &&& offset == 64 ==> word == frame.r9
            &&& offset == 72 ==> word == frame.r8
            &&& offset == 80 ==> word == frame.rax
            &&& offset == 88 ==> word == frame.rcx
            &&& offset == 96 ==> word == frame.rdx
            &&& offset == 104 ==> word == frame.rsi
            &&& offset == 112 ==> word == frame.rdi
            &&& offset == 120 ==> word == frame.errcode
            &&& offset == 128 ==> word == frame.rip
            &&& offset == 136 ==> word == frame.cs
            &&& offset == 144 ==> word == frame.rflags
            &&& offset == 152 ==> word == frame.rsp
            &&& offset == 160 ==> word == frame.ss
            &&& offset == 168 || offset == 176 ==> word == 0
            &&& offset == 184 ==> word == frame.ds
            &&& offset == 192 ==> word == frame.es
            &&& offset == 200 || offset == 208 ==> word == 0
            &&& 216 <= offset < 848 || 912 <= offset ==> word == 0
            &&& 848 <= offset < 912 && offset != 896 ==> word == p.ptrace_state.debug_regs@[(offset
                - 848) / 8]
            &&& offset == 896 ==> word == p.ptrace_state.debug_regs@[6] ^ 0xffff_0ff0
        }),
{
}

/// Which words a tracer may write: a register if the code and the stack segment that the task
/// then has are those of user mode, and a debug register but for two that do not exist.
pub proof fn law_words_that_may_be_written(
    p: ProcessControlBlock,
    frame: TrapFrame,
    offset: usize,
    val: u64,
)
    requires
        p.ptrace_state.stop_frame_on_syscall_stack ==> frame == p.syscall_frame,
        !p.ptrace_state.stop_frame_on_syscall_stack ==> frame == p.kernel_frame,
    ensures
        p.accepts_user_word(offset, val) <==> {
            let cs = if offset == 136 {
                val
            } else {
                frame.cs
            };
            let ss = if offset == 160 {
                val
            } else {
                frame.ss
            };
            &&& offset % 8 == 0
            &&& (offset < 216 && cs & 3 == 3 && ss & 3 == 3) || (848 <= offset < 912 && offset
                != 880 && offset != 888)
        },
{
    let i = offset / 8;
    assert(0u64 & 3u64 == 0) by (bit_vector);
    if offset % 8 == 0 && offset < 216 {
        assert(i < 27);
        assert(offset == 8 * i);
    }
}

/// A word that a tracer writes changes no other word of the user area, but for the flags: a trap
/// flag that the tracer has set for single steps shows there.
pub proof fn law_writing_a_word_keeps_the_others(
    p: ProcessControlBlock,
    offset: usize,
    val: u64,
    other: usize,
)
    requires
        p.accepts_user_word(offset, val),
        other != offset,
        p.user_word(other) is Some,
    ensures
        p.with_user_word(offset, val).user_word(other) is Some,
        other != 144 ==> p.with_user_word(offset, val).user_word(other) == p.user_word(other),
        other == 144 ==> p.with_user_word(offset, val).user_word(other) == Some(
            if offset < 216 && p.ptrace_state.forced_trap_flag {
                p.user_word(other)->Some_0 | 0x100
            } else {
                p.user_word(other)->Some_0
            },
        ),
{
    let old = p.stop_frame().rflags;
    assert((old & !0x0005_4dd5u64) | (old & 0x0005_4dd5u64) == old && (old & 0x100u64 != 0 ==> old
        | 0x100u64 == old)) by (bit_vector);
    let i = offset / 8;
    let j = other / 8;
    assert(offset == 8 * i && other == 8 * j);
    assert(i != j);
}

/// Segments are those of user mode exactly if both have the privilege of user mode.
pub proof fn law_user_mode_is_the_privilege_of_both_segments(regs: UserRegsStruct)
    ensures
        regs.is_user_mode() <==> regs.cs & 3 == 3 && regs.ss & 3 == 3,
{
    assert(0u64 & 3u64 == 0) by (bit_vector);
}

} // verus!
