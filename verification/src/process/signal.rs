//! Signals.
use vstd::prelude::*;

verus! {

/// The number that names a process.
#[derive(Debug, Clone, Copy, PartialEq, Eq, Structural)]
pub struct RawPid {
    pub data: usize,
}

/// A signal, or `INVALID` for none.
#[derive(Debug, Clone, Copy, PartialEq, Eq, Structural)]
pub struct Signal {
    pub nr: u32,
}

impl Signal {
    /// No signal.
    pub const INVALID: u32 = 0;

    pub const SIGTRAP: u32 = 5;

    pub const SIGKILL: u32 = 9;

    pub const SIGCHLD: u32 = 17;

    pub const SIGCONT: u32 = 18;

    pub const SIGSTOP: u32 = 19;

    pub const SIGTSTP: u32 = 20;

    pub const SIGTTIN: u32 = 21;

    pub const SIGTTOU: u32 = 22;

    /// The largest signal number.
    pub const MAX_SIG_NUM: u32 = 64;

    pub open spec fn spec_is(self, nr: u32) -> bool {
        self.nr == nr
    }

    /// Whether this is the signal with the number `nr`.
    #[verifier::when_used_as_spec(spec_is)]
    pub fn is(self, nr: u32) -> (b: bool)
        ensures
            b == self.is(nr),
    {
        self.nr == nr
    }

    pub open spec fn spec_from_i32(value: i32) -> Signal {
        if 0 <= value <= Signal::MAX_SIG_NUM {
            Signal { nr: value as u32 }
        } else {
            Signal { nr: Signal::INVALID }
        }
    }

    /// The signal with the number `value`; a number that no signal has gives
    /// `INVALID`.
    #[verifier::when_used_as_spec(spec_from_i32)]
    pub fn from_i32(value: i32) -> (sig: Signal)
        ensures
            sig == Signal::from_i32(value),
    {
        if 0 <= value && value <= Signal::MAX_SIG_NUM as i32 {
            Signal { nr: value as u32 }
        } else {
            Signal { nr: Signal::INVALID }
        }
    }

    pub open spec fn spec_is_kernel_stop(self) -> bool {
        Signal::SIGSTOP <= self.nr <= Signal::SIGTTOU
    }

    /// Whether the signal stops a whole process: `SIGSTOP`, `SIGTSTP`, `SIGTTIN`
    /// or `SIGTTOU`.
    #[verifier::when_used_as_spec(spec_is_kernel_stop)]
    pub fn is_kernel_stop(self) -> (b: bool)
        ensures
            b == self.is_kernel_stop(),
    {
        Signal::SIGSTOP <= self.nr && self.nr <= Signal::SIGTTOU
    }
}

/// A set of signals: bit `n - 1` stands for signal `n`.
#[derive(Debug, Clone, Copy, PartialEq, Eq, Structural)]
pub struct SigSet {
    pub bits: u64,
}

impl SigSet {
    pub open spec fn spec_contains(&self, sig: Signal) -> bool {
        1 <= sig.nr <= 64 && (self.bits >> ((sig.nr - 1) as u64)) & 1 == 1
    }

    /// Whether the set holds `sig`.
    #[verifier::when_used_as_spec(spec_contains)]
    pub fn contains(&self, sig: Signal) -> (b: bool)
        ensures
            b == self.contains(sig),
    {
        1 <= sig.nr && sig.nr <= 64 && (self.bits >> ((sig.nr - 1) as u64)) & 1 == 1
    }

    /// The set without `SIGKILL` and without `SIGSTOP`, which nothing can block.
    pub fn without_unblockable(self) -> (set: SigSet)
        ensures
            set.bits == self.bits & !0x4_0100u64,
            !set.contains(Signal { nr: Signal::SIGKILL }),
            !set.contains(Signal { nr: Signal::SIGSTOP }),
            forall|s: Signal|
                s.nr != Signal::SIGKILL && s.nr != Signal::SIGSTOP ==> (#[trigger] set.contains(s)
                    <==> self.contains(s)),
    {
        let set = SigSet { bits: self.bits & !0x4_0100u64 };
        proof {
            let b = self.bits;
            assert(((b & !0x4_0100u64) >> 8u64) & 1 == 0) by (bit_vector);
            assert(((b & !0x4_0100u64) >> 18u64) & 1 == 0) by (bit_vector);
            assert forall|s: Signal|
                s.nr != Signal::SIGKILL && s.nr != Signal::SIGSTOP implies (#[trigger] set.contains(
                s,
            ) <==> self.contains(s)) by {
                if 1 <= s.nr <= 64 {
                    let i = (s.nr - 1) as u64;
                    assert(((b & !0x4_0100u64) >> i) & 1 == (b >> i) & 1) by (bit_vector)
                        requires
                            i < 64,
                            i != 8,
                            i != 18,
                    ;
                }
            }
        }
        set
    }
}

/// Where a signal comes from.
#[derive(Debug, Clone, Copy, PartialEq, Eq, Structural)]
pub enum SigCode {
    /// From a process.
    User,
    /// From the kernel.
    Kernel,
    /// With a code of its own.
    Raw(i32),
}

impl SigCode {
    pub open spec fn spec_as_i32(self) -> i32 {
        match self {
            SigCode::User => 0,
            SigCode::Kernel => 0x80,
            SigCode::Raw(code) => code,
        }
    }

    /// The number that user space sees.
    #[verifier::when_used_as_spec(spec_as_i32)]
    pub fn as_i32(self) -> (code: i32)
        ensures
            code == self.as_i32(),
    {
        match self {
            SigCode::User => 0,
            SigCode::Kernel => 0x80,
            SigCode::Raw(code) => code,
        }
    }
}

/// Why a parent hears of its child.
#[derive(Debug, Clone, Copy, PartialEq, Eq, Structural)]
pub enum SigChildCode {
    Exited,
    Killed,
    Dumped,
    /// The child is in a tracing stop.
    Trapped,
    /// The child is stopped.
    Stopped,
    /// The child runs again.
    Continued,
}

impl SigChildCode {
    pub open spec fn spec_as_i32(self) -> i32 {
        match self {
            SigChildCode::Exited => 1,
            SigChildCode::Killed => 2,
            SigChildCode::Dumped => 3,
            SigChildCode::Trapped => 4,
            SigChildCode::Stopped => 5,
            SigChildCode::Continued => 6,
        }
    }

    /// The number that user space sees.
    #[verifier::when_used_as_spec(spec_as_i32)]
    pub fn as_i32(self) -> (code: i32)
        ensures
            code == self.as_i32(),
    {
        match self {
            SigChildCode::Exited => 1,
            SigChildCode::Killed => 2,
            SigChildCode::Dumped => 3,
            SigChildCode::Trapped => 4,
            SigChildCode::Stopped => 5,
            SigChildCode::Continued => 6,
        }
    }
}

/// What a signal says beside its number.
#[derive(Debug, Clone, Copy, PartialEq, Eq, Structural)]
pub enum SigType {
    /// Sent by a process.
    Kill { pid: RawPid, uid: u32 },
    /// A child has changed its state.
    SigChild { pid: RawPid, uid: u32, status: i32, utime: u64, stime: u64 },
}

/// A signal with what it says.
#[derive(Debug, Clone, Copy, PartialEq, Eq, Structural)]
pub struct SigInfo {
    pub signo: Signal,
    pub errno: i32,
    pub code: SigCode,
    pub kind: SigType,
}

/// Whom a signal is for.
#[derive(Debug, Clone, Copy, PartialEq, Eq, Structural)]
pub enum PidType {
    /// One thread.
    PID,
    /// A whole process.
    TGID,
}

/// What a process does on `SIGCHLD`.
#[derive(Debug, Clone, Copy, PartialEq, Eq, Structural)]
pub struct SigchldAction {
    /// The signal is ignored.
    pub ignore: bool,
    /// No signal is wanted when a child stops.
    pub no_cld_stop: bool,
}

/// The signal state that the threads of a process share.
#[derive(Debug, Clone, Copy, PartialEq, Eq, Structural)]
pub struct SigHand {
    /// The process is stopped as a whole.
    pub stop_stopped: bool,
    /// The parent has not been told yet that the process stopped.
    pub cld_stopped: bool,
    /// The signal that stopped the process.
    pub stop_signal: Signal,
    /// What is done on `SIGCHLD`, where that is set up at all.
    pub sigchld: Option<SigchldAction>,
}

impl SigHand {
    pub open spec fn spec_with_cld_stopped(&self, v: bool) -> SigHand {
        SigHand { cld_stopped: v, ..*self }
    }

    /// The state as the parent still has to be told of a stop, or not.
    #[verifier::when_used_as_spec(spec_with_cld_stopped)]
    pub fn with_cld_stopped(&self, v: bool) -> (sighand: SigHand)
        ensures
            sighand == self.with_cld_stopped(v),
    {
        SigHand { cld_stopped: v, ..*self }
    }

    pub open spec fn spec_stopped_by(&self, signal: Signal) -> SigHand {
        SigHand { stop_signal: signal, stop_stopped: true, ..*self }
    }

    /// The state of a process that a signal has stopped as a whole.
    #[verifier::when_used_as_spec(spec_stopped_by)]
    pub fn stopped_by(&self, signal: Signal) -> (sighand: SigHand)
        ensures
            sighand == self.stopped_by(signal),
    {
        SigHand { stop_signal: signal, stop_stopped: true, ..*self }
    }
}

} // verus!
