//! The memory of a process as a file: the place in the file is the address.
use crate::error::SystemError;
use crate::mm::access::{BytePlace, Memory, MemoryView};
use crate::mm::fault::PageFault;
use crate::mm::transfer::{AccessStep, UserAccess};
use crate::process::manager::{ProcessManager, ProcessManagerView};
use crate::process::pcb::TaskId;
use crate::process::signal::RawPid;
use vstd::prelude::*;

verus! {

/// The process that files are about.
#[derive(Debug, Clone, Copy)]
pub struct ProcPidTarget {
    pub pid: RawPid,
    /// The user and the group that the files belong to.
    pub owner: Option<(usize, usize)>,
}

impl ProcPidTarget {
    /// The task, if there still is one.
    pub fn task(&self, pm: &ProcessManager) -> (task: Option<TaskId>)
        ensures
            task == pm@.find(self.pid),
            task is Some ==> pm@.has(task->Some_0),
    {
        pm.find(self.pid)
    }

    pub open spec fn spec_owner_uid_gid(&self) -> Option<(usize, usize)> {
        self.owner
    }

    /// The user and the group that the files belong to.
    #[verifier::when_used_as_spec(spec_owner_uid_gid)]
    pub fn owner_uid_gid(&self) -> (owner: Option<(usize, usize)>)
        ensures
            owner == self.owner_uid_gid(),
    {
        self.owner
    }
}

/// Who may do what with a file.
#[derive(Debug, Clone, Copy, PartialEq, Eq, Structural)]
pub struct InodeMode {
    pub bits: u32,
}

impl InodeMode {
    /// The owner may read.
    pub const S_IRUSR: u32 = 0x100;

    /// The owner may write.
    pub const S_IWUSR: u32 = 0x80;
}

/// The file with the memory of a process.
#[derive(Debug, Clone, Copy)]
pub struct MemFileOps {
    pub target: ProcPidTarget,
}

/// A file of a process, in a directory.
#[derive(Debug, Clone, Copy)]
pub struct ProcFile {
    pub ops: MemFileOps,
    pub mode: InodeMode,
    /// The number of the directory.
    pub parent: Option<usize>,
}

/// How far the reading of the file is.
#[derive(Debug)]
pub enum MemRead {
    /// It is over; the first bytes, as many as the result tells, have been read.
    Done { res: Result<usize, SystemError>, bytes: Vec<u8> },
    /// A page fault has to be taken. If it fails, `read_end` tells the result, and otherwise
    /// `read_resume` goes on.
    Fault { target: TaskId, access: UserAccess, fault: PageFault },
}

/// How far the writing of the file is.
#[derive(Debug)]
pub enum MemWrite {
    Done(Result<usize, SystemError>),
    /// A page fault has to be taken. If it fails, `write_end` tells the result, and otherwise
    /// `write_resume` goes on.
    Fault { target: TaskId, access: UserAccess, fault: PageFault },
}

/// What is told when so many bytes have been done out of those that were wanted: if not even
/// the first one could be, that is an error and not the end of the file.
pub open spec fn end_result(copied: usize, wanted: usize) -> Result<usize, SystemError> {
    if copied == 0 && wanted != 0 {
        Err(SystemError::EIO)
    } else {
        Ok(copied)
    }
}

/// The task with an address space that the file is about.
pub open spec fn accessed(pm: ProcessManagerView, pid: RawPid) -> Option<TaskId> {
    match pm.find(pid) {
        Some(t) => if pm.task(t).user_vm is Some {
            Some(t)
        } else {
            None
        },
        None => None,
    }
}

/// How many bytes are accessed.
pub open spec fn actual_len(len: usize, room: nat) -> int {
    if len <= room {
        len as int
    } else {
        room as int
    }
}

/// Whether the reading of the file is in this step, when it has gone on from the byte at place
/// `from`.
pub open spec fn read_is(
    step: MemRead,
    target: TaskId,
    wanted: usize,
    mm: MemoryView,
    addr: usize,
    buf: Seq<u8>,
    vm: Option<usize>,
    retry: Option<usize>,
    from: int,
) -> bool {
    let n = crate::mm::transfer::stop_at(
        mm,
        addr,
        false,
        vm,
        retry,
        from,
        from,
        buf.len() as int,
    );
    let read = crate::mm::transfer::peeked(mm, addr, buf, vm, retry, from, n);
    match crate::mm::transfer::place_of(mm, addr, false, vm, retry, from, n) {
        BytePlace::Fault(f) if n < buf.len() => {
            &&& step matches MemRead::Fault { target: t, access, fault }
            &&& t == target
            &&& fault == f
            &&& access.addr == addr
            &&& access.copied == n
            &&& access.buf@ == read
        },
        _ => {
            &&& step matches MemRead::Done { res, bytes }
            &&& res == end_result(n as usize, wanted)
            &&& bytes@ == read
        },
    }
}

/// Whether the writing of the file is in this step, when it has gone on from the byte at place
/// `from`, and whether the memory is then `after`.
pub open spec fn write_is(
    step: MemWrite,
    target: TaskId,
    mm: MemoryView,
    addr: usize,
    buf: Seq<u8>,
    vm: Option<usize>,
    retry: Option<usize>,
    from: int,
    after: MemoryView,
) -> bool {
    let n = crate::mm::transfer::stop_at(
        mm,
        addr,
        true,
        vm,
        retry,
        from,
        from,
        buf.len() as int,
    );
    &&& after == crate::mm::transfer::poked(mm, addr, buf, vm, retry, from, n)
    &&& match crate::mm::transfer::place_of(mm, addr, true, vm, retry, from, n) {
        BytePlace::Fault(f) if n < buf.len() => {
            &&& step matches MemWrite::Fault { target: t, access, fault }
            &&& t == target
            &&& fault == f
            &&& access.addr == addr
            &&& access.copied == n
            &&& access.buf@ == buf
        },
        _ => {
            &&& step matches MemWrite::Done(res)
            &&& res == end_result(n as usize, buf.len() as usize)
        },
    }
}

impl MemFileOps {
    /// The file with the memory of a process: its owner may read and write it.
    pub fn new_inode(target: ProcPidTarget, parent: Option<usize>) -> (inode: ProcFile)
        ensures
            inode.ops.target == target,
            inode.mode.bits == InodeMode::S_IRUSR | InodeMode::S_IWUSR,
            inode.parent == parent,
    {
        ProcFile {
            ops: MemFileOps { target },
            mode: InodeMode { bits: InodeMode::S_IRUSR | InodeMode::S_IWUSR },
            parent,
        }
    }

    /// Whether the running task may reach the memory of a task: if it may trace it.
    fn check_access(pm: &ProcessManager, target: TaskId) -> (res: Result<(), SystemError>)
        requires
            pm@.wf(),
            pm@.has(target),
        ensures
            res == if pm@.task(pm@.current).has_permission_to_trace(&pm@.task(target)) {
                Ok::<(), SystemError>(())
            } else {
                Err(SystemError::EACCES)
            },
    {
        if pm.task(pm.current).has_permission_to_trace(&pm.task(target)) {
            Ok(())
        } else {
            Err(SystemError::EACCES)
        }
    }

    /// Opens the file: there has to be a task, the running one has to have access to it, and it
    /// has to have an address space.
    pub fn open(&self, pm: &ProcessManager) -> (res: Result<(), SystemError>)
        requires
            pm@.wf(),
        ensures
            res == match pm@.find(self.target.pid) {
                None => Err::<(), SystemError>(SystemError::ESRCH),
                Some(t) => if !pm@.task(pm@.current).has_permission_to_trace(&pm@.task(t)) {
                    Err(SystemError::EACCES)
                } else if pm@.task(t).user_vm is None {
                    Err(SystemError::ESRCH)
                } else {
                    Ok(())
                },
            },
    {
        let target = match self.target.task(pm) {
            Some(t) => t,
            None => {
                return Err(SystemError::ESRCH);
            },
        };
        match Self::check_access(pm, target) {
            Ok(()) => {},
            Err(e) => {
                return Err(e);
            },
        }
        if pm.task(target).user_vm.is_none() {
            return Err(SystemError::ESRCH);
        }
        Ok(())
    }

    /// The task with an address space that the file is about.
    fn accessed_task(&self, pm: &ProcessManager) -> (target: Option<TaskId>)
        ensures
            target == accessed(pm@, self.target.pid),
            target is Some ==> pm@.has(target->Some_0),
    {
        match self.target.task(pm) {
            Some(t) => if pm.task(t).user_vm.is_some() {
                Some(t)
            } else {
                None
            },
            None => None,
        }
    }

    /// Begins with an access to the memory from an address on.
    fn access_vm(addr: usize, buf: Vec<u8>) -> (res: Result<UserAccess, SystemError>)
        ensures
            if addr + buf@.len() > usize::MAX {
                res == Err::<UserAccess, _>(SystemError::EIO)
            } else {
                res matches Ok(access) && access.wf() && access.addr == addr && access.buf@ == buf@
                    && access.copied == 0
            },
    {
        match addr.checked_add(buf.len()) {
            Some(_) => Ok(UserAccess { addr, buf, copied: 0 }),
            None => Err(SystemError::EIO),
        }
    }

    /// The result of reading when it ends with the next byte.
    pub fn read_end(access: &UserAccess, len: usize) -> (res: Result<usize, SystemError>)
        ensures
            res == end_result(access.copied, len),
    {
        if access.copied == 0 && len != 0 {
            Err(SystemError::EIO)
        } else {
            Ok(access.copied)
        }
    }

    /// The result of writing when it ends with the next byte.
    pub fn write_end(access: &UserAccess) -> (res: Result<usize, SystemError>)
        ensures
            res == end_result(access.copied, access.buf@.len() as usize),
    {
        if access.copied == 0 && access.buf.len() != 0 {
            Err(SystemError::EIO)
        } else {
            Ok(access.copied)
        }
    }

    /// Goes on with reading.
    fn read_on(
        pm: &ProcessManager,
        mm: &Memory,
        target: TaskId,
        len: usize,
        access: UserAccess,
        retry: Option<usize>,
    ) -> (step: MemRead)
        requires
            pm@.has(target),
            mm@.wf(),
            mm@.has_vm(pm@.task(target).user_vm),
            mm@.has_vm(retry),
            access.wf(),
        ensures
            read_is(
                step,
                target,
                len,
                mm@,
                access.addr,
                access.buf@,
                pm@.task(target).user_vm,
                retry,
                access.copied as int,
            ),
    {
        let mut access = access;
        match access.read_on(mm, pm.task(target).user_vm, retry) {
            AccessStep::Fault(fault) => MemRead::Fault { target, access, fault },
            _ => {
                let res = Self::read_end(&access, len);
                MemRead::Done { res, bytes: access.buf }
            },
        }
    }

    /// Goes on with writing.
    fn write_on(
        pm: &ProcessManager,
        mm: &mut Memory,
        target: TaskId,
        access: UserAccess,
        retry: Option<usize>,
    ) -> (step: MemWrite)
        requires
            pm@.has(target),
            old(mm)@.wf(),
            old(mm)@.has_vm(pm@.task(target).user_vm),
            old(mm)@.has_vm(retry),
            access.wf(),
        ensures
            write_is(
                step,
                target,
                old(mm)@,
                access.addr,
                access.buf@,
                pm@.task(target).user_vm,
                retry,
                access.copied as int,
                final(mm)@,
            ),
            final(mm)@.wf(),
    {
        let mut access = access;
        match access.write_on(mm, pm.task(target).user_vm, retry) {
            AccessStep::Fault(fault) => MemWrite::Fault { target, access, fault },
            _ => MemWrite::Done(Self::write_end(&access)),
        }
    }

    /// Reads `len` bytes at an address, or as many as there is room for. Of a task that is no
    /// more, or that has given up its memory, there is nothing to read.
    pub fn read_at(
        &self,
        pm: &ProcessManager,
        mm: &Memory,
        offset: usize,
        len: usize,
        buf: Vec<u8>,
    ) -> (step: MemRead)
        requires
            mm@.wf(),
            forall|t: TaskId| #[trigger]
                pm@.has(t) ==> mm@.has_vm(pm@.task(t).user_vm),
        ensures
            match accessed(pm@, self.target.pid) {
                Some(t) if len != 0 => {
                    let n = actual_len(len, buf@.len());
                    if offset + n > usize::MAX {
                        step matches MemRead::Done { res, bytes } && res == Err::<usize, _>(
                            SystemError::EIO,
                        ) && bytes@.len() == 0
                    } else {
                        read_is(
                            step,
                            t,
                            len,
                            mm@,
                            offset,
                            buf@.take(n),
                            pm@.task(t).user_vm,
                            None,
                            0,
                        )
                    }
                },
                _ => {
                    &&& step matches MemRead::Done { res, bytes }
                    &&& res == Ok::<_, SystemError>(0usize)
                    &&& bytes@.len() == 0
                },
            },
    {
        if len == 0 {
            return MemRead::Done { res: Ok(0), bytes: Vec::new() };
        }
        let target = match self.accessed_task(pm) {
            Some(t) => t,
            None => {
                return MemRead::Done { res: Ok(0), bytes: Vec::new() };
            },
        };
        let mut buf = buf;
        let ghost whole = buf@;
        if len < buf.len() {
            buf.truncate(len);
        }
        assert(buf@ =~= whole.take(actual_len(len, whole.len())));
        match Self::access_vm(offset, buf) {
            Ok(access) => Self::read_on(pm, mm, target, len, access, None),
            Err(e) => MemRead::Done { res: Err(e), bytes: Vec::new() },
        }
    }

    /// Goes on with reading when a page fault in the address space `vm` has been handled.
    pub fn read_resume(
        pm: &ProcessManager,
        mm: &Memory,
        target: TaskId,
        len: usize,
        access: UserAccess,
        vm: usize,
    ) -> (step: MemRead)
        requires
            pm@.has(target),
            mm@.wf(),
            mm@.has_vm(pm@.task(target).user_vm),
            mm@.has_vm(Some(vm)),
            access.wf(),
        ensures
            read_is(
                step,
                target,
                len,
                mm@,
                access.addr,
                access.buf@,
                pm@.task(target).user_vm,
                Some(vm),
                access.copied as int,
            ),
    {
        Self::read_on(pm, mm, target, len, access, Some(vm))
    }

    /// Writes `len` bytes at an address, or as many as there are. Of a task that is no more, or
    /// that has given up its memory, there is nothing to write.
    pub fn write_at(
        &self,
        pm: &ProcessManager,
        mm: &mut Memory,
        offset: usize,
        len: usize,
        buf: Vec<u8>,
    ) -> (step: MemWrite)
        requires
            old(mm)@.wf(),
            forall|t: TaskId| #[trigger]
                pm@.has(t) ==> old(mm)@.has_vm(pm@.task(t).user_vm),
        ensures
            match accessed(pm@, self.target.pid) {
                Some(t) if len != 0 => {
                    let n = actual_len(len, buf@.len());
                    if offset + n > usize::MAX {
                        (step matches MemWrite::Done(res) && res == Err::<usize, _>(
                            SystemError::EIO,
                        )) && final(mm)@ == old(mm)@
                    } else {
                        write_is(
                            step,
                            t,
                            old(mm)@,
                            offset,
                            buf@.take(n),
                            pm@.task(t).user_vm,
                            None,
                            0,
                            final(mm)@,
                        )
                    }
                },
                _ => (step matches MemWrite::Done(res) && res == Ok::<_, SystemError>(0usize))
                    && final(mm)@ == old(mm)@,
            },
            final(mm)@.wf(),
    {
        if len == 0 {
            return MemWrite::Done(Ok(0));
        }
        let target = match self.accessed_task(pm) {
            Some(t) => t,
            None => {
                return MemWrite::Done(Ok(0));
            },
        };
        let mut buf = buf;
        let ghost whole = buf@;
        if len < buf.len() {
            buf.truncate(len);
        }
        assert(buf@ =~= whole.take(actual_len(len, whole.len())));
        match Self::access_vm(offset, buf) {
            Ok(access) => Self::write_on(pm, mm, target, access, None),
            Err(e) => MemWrite::Done(Err(e)),
        }
    }

    /// Goes on with writing when a page fault in the address space `vm` has been handled.
    pub fn write_resume(
        pm: &ProcessManager,
        mm: &mut Memory,
        target: TaskId,
        access: UserAccess,
        vm: usize,
    ) -> (step: MemWrite)
        requires
            pm@.has(target),
            old(mm)@.wf(),
            old(mm)@.has_vm(pm@.task(target).user_vm),
            old(mm)@.has_vm(Some(vm)),
            access.wf(),
        ensures
            write_is(
                step,
                target,
                old(mm)@,
                access.addr,
                access.buf@,
                pm@.task(target).user_vm,
                Some(vm),
                access.copied as int,
                final(mm)@,
            ),
            final(mm)@.wf(),
    {
        Self::write_on(pm, mm, target, access, Some(vm))
    }

    /// The user and the group that the file belongs to.
    pub fn owner(&self) -> (owner: Option<(usize, usize)>)
        ensures
            owner == self.target.owner_uid_gid(),
    {
        self.target.owner_uid_gid()
    }
}

/// What has been written to the file is read from it: if all bytes could be written without a
/// page fault, and none of them fall on each other, then all bytes are read, and they are the
/// same.
pub proof fn law_write_then_read_mem(
    target: TaskId,
    mm: MemoryView,
    after: MemoryView,
    addr: usize,
    bytes: Seq<u8>,
    room: Seq<u8>,
    vm: Option<usize>,
    step: MemRead,
)
    requires
        mm.wf(),
        mm.has_vm(vm),
        bytes.len() > 0,
        crate::mm::transfer::do_not_clash(mm, addr, bytes, vm),
        addr + bytes.len() <= usize::MAX,
        room.len() == bytes.len(),
        write_is(
            MemWrite::Done(Ok((bytes.len() as usize))),
            target,
            mm,
            addr,
            bytes,
            vm,
            None,
            0,
            after,
        ),
        read_is(step, target, bytes.len() as usize, after, addr, room, vm, None, 0),
    ensures
        step matches MemRead::Done { res, bytes: read } && res == Ok::<_, SystemError>(
            bytes.len() as usize,
        ) && read@ == bytes,
{
    let len = bytes.len() as int;
    crate::mm::transfer::lemma_stop_at(mm, addr, true, vm, None, 0, 0, len);
    crate::mm::transfer::law_written_bytes_are_read_back(mm, addr, bytes, vm);
    crate::mm::transfer::lemma_stop_at(after, addr, false, vm, None, 0, 0, len);
    let n = crate::mm::transfer::stop_at(after, addr, false, vm, None, 0, 0, len);
    if n < len {
        assert(crate::mm::transfer::place_of(after, addr, false, vm, None, 0, n) is At);
    }
    let read = crate::mm::transfer::peeked(after, addr, room, vm, None, 0, n);
    assert forall|i: int| 0 <= i < len implies #[trigger] read[i] == bytes[i] by {
        assert(crate::mm::transfer::place_of(after, addr, false, vm, None, 0, i) is At);
    }
    assert(read =~= bytes);
}

/// What is read from the file is what lies in the memory of the process at the addresses from the
/// offset on, as far as the first byte that cannot be accessed. If not even the first byte can be,
/// that is an error.
pub proof fn law_file_shows_the_memory(
    target: TaskId,
    wanted: usize,
    mm: MemoryView,
    addr: usize,
    buf: Seq<u8>,
    vm: Option<usize>,
    res: Result<usize, SystemError>,
    bytes: Vec<u8>,
)
    requires
        wanted > 0,
        buf.len() > 0,
        addr + buf.len() <= usize::MAX,
        read_is(MemRead::Done { res, bytes }, target, wanted, mm, addr, buf, vm, None, 0),
    ensures
        res is Ok ==> 0 < res->Ok_0 <= buf.len() && bytes@.len() == buf.len(),
        res is Ok ==> forall|i: int|
            0 <= i < res->Ok_0 ==> #[trigger] bytes@[i] == mm.ram[mm.byte_place(
                vm,
                (addr + i) as usize,
                false,
                false,
            )->At_0 as int],
        res is Ok && res->Ok_0 < buf.len() ==> mm.byte_place(
            vm,
            (addr + res->Ok_0) as usize,
            false,
            false,
        ) is Fail,
        res is Err ==> res->Err_0 == SystemError::EIO && mm.byte_place(
            vm,
            addr,
            false,
            false,
        ) is Fail,
{
    let len = buf.len() as int;
    crate::mm::transfer::lemma_stop_at(mm, addr, false, vm, None, 0, 0, len);
    let n = crate::mm::transfer::stop_at(mm, addr, false, vm, None, 0, 0, len);
    crate::mm::transfer::law_read_bytes_are_those_in_memory(mm, addr, buf, vm, None, 0, n);
    assert(res == end_result(n as usize, wanted));
    assert(crate::mm::transfer::place_of(mm, addr, false, vm, None, 0, n) == mm.byte_place(
        vm,
        (addr + n) as usize,
        false,
        false,
    ));
}

/// What is told at the end: an error if bytes were wanted and none could be had, and otherwise how
/// many there were. No more bytes are accessed than there is room for, nor more than are wanted.
pub proof fn law_result_of_an_access(copied: usize, wanted: usize, room: nat)
    ensures
        copied > 0 ==> end_result(copied, wanted) == Ok::<usize, SystemError>(copied),
        copied == 0 && wanted > 0 ==> end_result(copied, wanted) == Err::<usize, _>(
            SystemError::EIO,
        ),
        copied == 0 && wanted == 0 ==> end_result(copied, wanted) == Ok::<usize, SystemError>(0),
        actual_len(wanted, room) <= wanted,
        actual_len(wanted, room) <= room,
        actual_len(wanted, room) == wanted || actual_len(wanted, room) == room,
{
}

/// The file is about the task that is found by the number, if that still has an address space.
pub proof fn law_task_that_the_file_is_about(pm: ProcessManagerView, pid: RawPid)
    ensures
        accessed(pm, pid) == match pm.find(pid) {
            Some(t) if pm.tasks[t as int].user_vm is Some => Some(t),
            _ => None,
        },
{
}

/// The owner may read and write the file, and nobody else anything; it belongs to whom the files of
/// the process belong.
pub proof fn law_owner_of_the_file(target: ProcPidTarget)
    ensures
        InodeMode::S_IRUSR == 0x100,
        InodeMode::S_IWUSR == 0x80,
        target.owner_uid_gid() == target.owner,
{
}

} // verus!
