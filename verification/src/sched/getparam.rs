//! Reading the real-time priority of a task.
use crate::error::SystemError;
use crate::process::manager::{ProcessManager, ProcessManagerView};
use crate::process::pcb::TaskId;
use crate::process::signal::RawPid;
use crate::sched::policy::SchedPolicy;
use crate::sched::prio::MAX_RT_PRIO;
use vstd::prelude::*;

verus! {

/// What the user gets to see, in the layout of the C library.
#[derive(Debug, Clone, Copy, PartialEq, Eq)]
pub struct PosixSchedParam {
    pub sched_priority: i32,
    pub __reserved1: i32,
    pub __reserved2: [i64; 4],
    pub __reserved3: i32,
}

impl PosixSchedParam {
    /// Whether the user gets to see a priority and nothing else.
    pub open spec fn shows(self, priority: int) -> bool {
        &&& self.sched_priority == priority
        &&& self.__reserved1 == 0
        &&& forall|i: int| 0 <= i < 4 ==> self.__reserved2@[i] == 0
        &&& self.__reserved3 == 0
    }
}

/// The system call that reads the real-time priority of a task.
pub struct SysSchedGetparam;

/// The priority that the user gets to see: 0 without a real-time policy, else the
/// real-time priority, brought into its range.
pub open spec fn shown_priority(policy: SchedPolicy, rt_priority: i32) -> int {
    match policy {
        SchedPolicy::CFS | SchedPolicy::IDLE => 0,
        SchedPolicy::RT | SchedPolicy::FIFO => if rt_priority < 1 {
            1
        } else if rt_priority > MAX_RT_PRIO - 1 {
            MAX_RT_PRIO - 1
        } else {
            rt_priority as int
        },
    }
}

/// The task that the system call is about; 0 stands for the running one.
pub open spec fn getparam_target(pm: ProcessManagerView, pid: usize) -> Option<TaskId> {
    if pid == 0 {
        Some(pm.current)
    } else {
        pm.find_vpid(RawPid { data: pid })
    }
}

impl SysSchedGetparam {
    /// The number of arguments of the system call.
    pub fn num_args(&self) -> (n: usize)
        ensures
            n == 2,
    {
        2
    }

    fn pid(args: &Vec<usize>) -> (pid: usize)
        requires
            args@.len() >= 2,
        ensures
            pid == args@[0],
    {
        args[0]
    }

    /// Where the user wants the result.
    fn param(args: &Vec<usize>) -> (addr: usize)
        requires
            args@.len() >= 2,
        ensures
            addr == args@[1],
    {
        args[1]
    }

    /// The task that the system call is about.
    pub fn target(pm: &ProcessManager, pid: usize) -> (target: Option<TaskId>)
        requires
            pm@.wf(),
        ensures
            target == getparam_target(pm@, pid),
            target is Some ==> pm@.has(target->Some_0),
    {
        if pid == 0 {
            Some(pm.current)
        } else {
            pm.find_task_by_vpid(RawPid { data: pid })
        }
    }

    /// What has to be written to the user. `permitted` tells whether the running task
    /// may look at the target.
    pub fn handle(&self, pm: &ProcessManager, args: &Vec<usize>, permitted: bool) -> (res: Result<
        PosixSchedParam,
        SystemError,
    >)
        requires
            pm@.wf(),
            args@.len() >= 2,
        ensures
            match res {
                Err(e) => {
                    ||| e == SystemError::EFAULT && args@[1] == 0
                    ||| e == SystemError::ESRCH && args@[1] != 0 && getparam_target(
                        pm@,
                        args@[0],
                    ) is None
                    ||| e == SystemError::EPERM && args@[1] != 0 && getparam_target(
                        pm@,
                        args@[0],
                    ) is Some && !permitted
                },
                Ok(param) => {
                    &&& args@[1] != 0 && permitted
                    &&& getparam_target(pm@, args@[0]) is Some
                    &&& ({
                        let info = pm@.task(
                            getparam_target(pm@, args@[0])->Some_0,
                        ).sched_info;
                        param.shows(shown_priority(info.policy, info.rt_priority))
                    })
                },
            },
    {
        let pid: usize = Self::pid(args);
        if Self::param(args) == 0 {
            return Err(SystemError::EFAULT);
        }
        let target = match Self::target(pm, pid) {
            Some(target) => target,
            None => {
                return Err(SystemError::ESRCH);
            },
        };
        if !permitted {
            return Err(SystemError::EPERM);
        }
        let info = pm.task(target).sched_info;
        let sched_priority: i32 = match info.policy {
            SchedPolicy::CFS | SchedPolicy::IDLE => 0,
            SchedPolicy::RT | SchedPolicy::FIFO => {
                if info.rt_priority < 1 {
                    1
                } else if info.rt_priority > MAX_RT_PRIO - 1 {
                    MAX_RT_PRIO - 1
                } else {
                    info.rt_priority
                }
            },
        };
        Ok(
            PosixSchedParam {
                sched_priority,
                __reserved1: 0,
                __reserved2: [0i64; 4],
                __reserved3: 0,
            },
        )
    }
}

/// A priority that the user gets to see is 0 exactly where there is no real-time
/// policy, and else between 1 and 99.
pub proof fn law_shown_priority_tells_real_time(policy: SchedPolicy, rt_priority: i32)
    ensures
        shown_priority(policy, rt_priority) == 0 <==> policy == SchedPolicy::CFS || policy
            == SchedPolicy::IDLE,
        0 <= shown_priority(policy, rt_priority) <= 99,
{
}

} // verus!
