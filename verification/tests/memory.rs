use dragonos_kernel::error::SystemError;
use dragonos_kernel::interrupt::trap_frame::{KernelStack, TrapFrame};
use dragonos_kernel::mm::access::{ByteRead, ByteWritten, Memory};
use dragonos_kernel::mm::address_space::{AddressSpace, FileBacking, PageEntry, Vma};
use dragonos_kernel::mm::fault::{FaultStep, PageFault};
use dragonos_kernel::mm::transfer::{AccessStep, UserAccess};
use dragonos_kernel::process::manager::ProcessManager;
use dragonos_kernel::process::pcb::{Cred, ExitState, ProcessControlBlock, ProcessFlags};
use dragonos_kernel::process::signal::{RawPid, SigHand, SigSet, SigchldAction, Signal};
use dragonos_kernel::procfs::mem::{MemFileOps, MemRead, MemWrite, ProcPidTarget};
use dragonos_kernel::ptrace::memory::{PeekStep, PokeStep};
use dragonos_kernel::ptrace::state::PtraceState;
use dragonos_kernel::sched::entity::{
    FairSchedEntity, ProcessSchedulerInfo, ProcessState, SchedInfo,
};
use dragonos_kernel::sched::load_weight::LoadWeight;
use dragonos_kernel::sched::policy::{OnRq, SchedPolicy};
use dragonos_kernel::smp::cpu::{CpuMask, ProcessorId};

fn flags() -> ProcessFlags {
    ProcessFlags {
        kthread: false,
        need_schedule: false,
        need_migrate: false,
        in_iowait: false,
        sched_contributes_to_load: false,
        exiting: false,
        need_rseq: false,
        ptraced: false,
        trace_syscall: false,
        trace_singlestep: false,
        trace_sysemu: false,
        pt_seized: false,
        ptrace_event_stop: false,
        pending_ptrace_stop: false,
        trapping: false,
    }
}

/// A task of the fair class that can run on the first two processors.
fn task(pid: usize) -> ProcessControlBlock {
    let mut cpus_allowed = CpuMask::new();
    cpus_allowed.set(ProcessorId::new(0), true);
    cpus_allowed.set(ProcessorId::new(1), true);
    ProcessControlBlock {
        raw_pid: RawPid { data: pid },
        vpid: RawPid { data: pid },
        tgid: RawPid { data: pid },
        hashed: true,
        alive: true,
        flags: flags(),
        sched_info: ProcessSchedulerInfo {
            policy: SchedPolicy::CFS,
            prio: 120,
            static_prio: 120,
            normal_prio: 120,
            rt_priority: 0,
            cpu: ProcessorId::new(0),
            on_cpu: None,
            on_rq: OnRq::Unqueued,
            state: ProcessState::Runnable,
            mark_sleep: false,
            wake_kill: false,
            migrate_to: None,
            cpus_allowed,
            sched_stat: SchedInfo { last_queued: 0, run_delay: 0 },
            sched_entity: FairSchedEntity {
                load: LoadWeight { weight: 1024, inv_weight: 0 },
                util_avg: 0,
                last_update_time: 0,
                cfs_rq: ProcessorId::new(0),
                cfs_group: None,
                parent: None,
            },
        },
        exit_state: ExitState::Running,
        ptrace_state: PtraceState::new(),
        ptracer: None,
        real_parent: None,
        fork_parent: None,
        group_leader: None,
        cred: Cred { uid: 0, euid: 0, suid: 0, gid: 0, egid: 0, sgid: 0, cap_sys_ptrace: false },
        dumpable: 1,
        sig_blocked: SigSet { bits: 0 },
        sig_pending: SigSet { bits: 0 },
        has_pending_signal: false,
        sighand: pid - 1,
        kernel_stack: KernelStack { start: 0x1000, max: 0x5000 },
        syscall_stack: KernelStack { start: 0x1000_0000, max: 0x1000_4000 },
        kernel_rsp: 0x1100,
        kernel_frame: TrapFrame::new(),
        syscall_frame: TrapFrame::new(),
        user_vm: None,
        nvcsw: 0,
        nivcsw: 0,
        rseq_registered: false,
    }
}

/// The tasks with the numbers 1 to `n`; the first one runs on the first of two processors.
fn manager(n: usize) -> ProcessManager {
    let mut tasks = Vec::new();
    let mut ptraced = Vec::new();
    let mut sighands = Vec::new();
    for pid in 1..=n {
        tasks.push(task(pid));
        ptraced.push(Vec::new());
        sighands.push(SigHand {
            stop_stopped: false,
            cld_stopped: false,
            stop_signal: Signal { nr: Signal::INVALID },
            sigchld: Some(SigchldAction { ignore: false, no_cld_stop: false }),
        });
    }
    ProcessManager {
        tasks,
        ptraced,
        sighands,
        preempt_count: vec![0; 128],
        init_done: true,
        cpu: ProcessorId::new(0),
        current: 0,
        irq_enabled: true,
        bh_disabled: 0,
        nr_running: 0,
        actions: Vec::new(),
    }
}

const USER_END: usize = 0x7fff_ffff_ffff;

fn vma(start: usize, end: usize) -> Vma {
    Vma { start, end, grows_down: false, file: None }
}

/// Two pages that follow each other and lie apart in memory, the second one read-only, a third
/// page that is not in memory, and a stack above them.
fn memory() -> Memory {
    let space = AddressSpace {
        vmas: vec![
            vma(0x1_0000, 0x1_3000),
            Vma { start: 0x9_0000, end: 0xa_0000, grows_down: true, file: None },
        ],
        pages: vec![
            PageEntry { page: 0x10, frame: 0x3000, writable: true },
            PageEntry { page: 0x11, frame: 0x1000, writable: false },
        ],
        stack_limit: Some(0x8000),
        attached: true,
    };
    Memory { spaces: vec![space], ram: vec![0; 0x4000] }
}

fn tracee() -> ProcessControlBlock {
    ProcessControlBlock { user_vm: Some(0), ..task(2) }
}

#[test]
fn written_word_is_read_back() {
    let mut mm = memory();
    let p = tracee();
    let step = p.ptrace_poke_data(&mut mm, USER_END, 0x1_0008, 0x1122_3344_5566_7788);
    assert!(matches!(step, PokeStep::Done(Ok(()))));
    assert_eq!(mm.ram[0x3008], 0x88);
    assert_eq!(mm.ram[0x300f], 0x11);
    let step = p.ptrace_peek_data(&mm, USER_END, 0x1_0008);
    assert!(matches!(step, PeekStep::Done(Ok(0x1122_3344_5566_7788))));
}

#[test]
fn word_across_the_end_of_a_page() {
    let mut mm = memory();
    mm.spaces[0].pages[1].writable = true;
    let p = tracee();
    let step = p.ptrace_poke_data(&mut mm, USER_END, 0x1_0ffd, 0x0807_0605_0403_0201);
    assert!(matches!(step, PokeStep::Done(Ok(()))));
    assert_eq!(&mm.ram[0x3ffd..0x4000], &[1, 2, 3]);
    assert_eq!(&mm.ram[0x1000..0x1005], &[4, 5, 6, 7, 8]);
    let step = p.ptrace_peek_data(&mm, USER_END, 0x1_0ffd);
    assert!(matches!(step, PeekStep::Done(Ok(0x0807_0605_0403_0201))));
}

#[test]
fn word_outside_of_the_user_part() {
    let mut mm = memory();
    let p = tracee();
    for addr in [usize::MAX, usize::MAX - 6, USER_END, USER_END - 7] {
        assert!(matches!(
            p.ptrace_peek_data(&mm, USER_END, addr),
            PeekStep::Done(Err(SystemError::EIO))
        ));
        assert!(matches!(
            p.ptrace_poke_data(&mut mm, USER_END, addr, 1),
            PokeStep::Done(Err(SystemError::EIO))
        ));
    }
    assert!(matches!(
        task(2).ptrace_peek_data(&mm, USER_END, USER_END - 8),
        PeekStep::Done(Err(SystemError::ESRCH))
    ));
}

#[test]
fn write_to_a_read_only_page_takes_a_fault() {
    let mut mm = memory();
    let p = tracee();
    let (access, fault) = match p.ptrace_poke_data(&mut mm, USER_END, 0x1_0ffe, 0x0605_0403_0201) {
        PokeStep::Fault { access, fault } => (access, fault),
        PokeStep::Done(_) => panic!("no fault was taken"),
    };
    assert_eq!(access.copied, 2);
    assert_eq!(
        fault,
        PageFault { vm: 0, addr: 0x1_1000, write: true, step: FaultStep::HandleFault }
    );
    assert_eq!(fault.handled(false), Err(SystemError::EIO));
    assert_eq!(fault.handled(true), Ok(()));
    mm.spaces[0].pages[1] = PageEntry { page: 0x11, frame: 0x2000, writable: true };
    let step = p.ptrace_poke_resume(&mut mm, access, fault.vm);
    assert!(matches!(step, PokeStep::Done(Ok(()))));
    assert_eq!(&mm.ram[0x3ffe..0x4000], &[1, 2]);
    assert_eq!(&mm.ram[0x2000..0x2004], &[3, 4, 5, 6]);
    assert_eq!(mm.ram[0x1000], 0);
}

#[test]
fn fault_is_taken_once_for_a_byte() {
    let mm = memory();
    let p = tracee();
    let (access, fault) = match p.ptrace_peek_data(&mm, USER_END, 0x1_1ffc) {
        PeekStep::Fault { access, fault } => (access, fault),
        PeekStep::Done(_) => panic!("no fault was taken"),
    };
    assert_eq!(access.copied, 4);
    assert_eq!(fault.addr, 0x1_2000);
    assert!(!fault.write);
    let step = p.ptrace_peek_resume(&mm, access, fault.vm);
    assert!(matches!(step, PeekStep::Done(Err(SystemError::EIO))));
}

#[test]
fn page_behind_the_end_of_memory() {
    let mut mm = memory();
    mm.ram.truncate(0x3000);
    assert_eq!(
        mm.peek_user_byte(Some(0), 0x1_0000, false),
        ByteRead::Done(Err(SystemError::EIO))
    );
    assert_eq!(
        mm.poke_user_byte(Some(0), 0x1_0000, 1, false),
        ByteWritten::Done(Err(SystemError::EIO))
    );
    assert_eq!(mm.peek_user_byte(None, 0x1_0000, false), ByteRead::Done(Err(SystemError::ESRCH)));
    assert_eq!(mm.peek_user_byte(Some(0), 0x1_1000, false), ByteRead::Done(Ok(0)));
}

#[test]
fn fault_below_a_stack_lets_it_grow() {
    let mm = memory();
    let space = &mm.spaces[0];
    assert_eq!(
        space.fault_in_tracee_page(0x8_f000),
        Ok(FaultStep::ExtendStack { size: 0x1000 })
    );
    assert_eq!(space.fault_in_tracee_page(0x8_7fff), Err(SystemError::EIO));
    assert_eq!(space.fault_in_tracee_page(0x5000), Err(SystemError::EIO));
    assert_eq!(space.fault_in_tracee_page(0xa_0000), Err(SystemError::EIO));
    let fault = PageFault {
        vm: 0,
        addr: 0x8_f000,
        write: true,
        step: FaultStep::ExtendStack { size: 0x1000 },
    };
    assert_eq!(fault.stack_extended(space, false), Err(SystemError::EIO));
    assert_eq!(
        fault.stack_extended(space, true),
        Ok(PageFault { step: FaultStep::HandleFault, ..fault })
    );
}

#[test]
fn stack_without_a_limit_does_not_grow() {
    let mut mm = memory();
    mm.spaces[0].stack_limit = None;
    assert_eq!(mm.spaces[0].fault_in_tracee_page(0x8_ffff), Err(SystemError::EIO));
}

#[test]
fn fault_in_an_address_space_that_is_given_up() {
    let mut mm = memory();
    mm.spaces[0].attached = false;
    assert_eq!(mm.spaces[0].fault_in_tracee_page(0x1_2000), Err(SystemError::EFAULT));
}

#[test]
fn fault_in_a_mapped_file_begins_with_the_file() {
    let mut mm = memory();
    let file = FileBacking { page_offset: Some(5), size: Ok(0x8000), has_page_cache: true };
    mm.spaces[0].vmas[0].file = Some(file);
    assert_eq!(
        mm.spaces[0].fault_in_tracee_page(0x1_2345),
        Ok(FaultStep::CommitPage { page_index: 7 })
    );
    let fault = PageFault {
        vm: 0,
        addr: 0x1_2345,
        write: false,
        step: FaultStep::CommitPage { page_index: 7 },
    };
    assert_eq!(
        fault.page_committed(&mm.spaces[0], Ok(())),
        Ok(PageFault { step: FaultStep::HandleFault, ..fault })
    );
    assert_eq!(
        fault.page_committed(&mm.spaces[0], Err(SystemError::EFAULT)),
        Err(SystemError::EFAULT)
    );
    let refused = [
        (FileBacking { size: Ok(0x7000), ..file }, SystemError::EIO),
        (FileBacking { size: Ok(-1), ..file }, SystemError::EIO),
        (FileBacking { size: Err(SystemError::EPERM), ..file }, SystemError::EPERM),
        (FileBacking { page_offset: None, ..file }, SystemError::EIO),
        (FileBacking { has_page_cache: false, ..file }, SystemError::EIO),
    ];
    for (file, error) in refused {
        mm.spaces[0].vmas[0].file = Some(file);
        assert_eq!(mm.spaces[0].fault_in_tracee_page(0x1_2345), Err(error));
    }
}

#[test]
fn nearest_mapping() {
    let mm = memory();
    assert_eq!(mm.spaces[0].find_nearest(0x1_1234).unwrap().start, 0x1_0000);
    assert_eq!(mm.spaces[0].find_nearest(0x1_3000).unwrap().start, 0x9_0000);
    assert!(mm.spaces[0].find_nearest(0xa_0000).is_none());
}

/// The second process has the memory, and there is a file for it.
fn mem_file() -> (ProcessManager, Memory, MemFileOps) {
    let mut pm = manager(2);
    pm.tasks[1].user_vm = Some(0);
    let target = ProcPidTarget { pid: RawPid { data: 2 }, owner: Some((10, 20)) };
    let inode = MemFileOps::new_inode(target, Some(3));
    assert_eq!(inode.mode.bits, 0o600);
    assert_eq!(inode.parent, Some(3));
    (pm, memory(), inode.ops)
}

#[test]
fn memory_file_is_opened_by_who_may_trace() {
    let (mut pm, _, file) = mem_file();
    assert_eq!(file.owner(), Some((10, 20)));
    assert_eq!(file.open(&pm), Ok(()));
    pm.tasks[1].user_vm = None;
    assert_eq!(file.open(&pm), Err(SystemError::ESRCH));
    pm.tasks[1].dumpable = 0;
    assert_eq!(file.open(&pm), Err(SystemError::EACCES));
    pm.tasks[1].hashed = false;
    assert_eq!(file.open(&pm), Err(SystemError::ESRCH));
}

#[test]
fn written_bytes_are_read_from_the_memory_file() {
    let (pm, mut mm, file) = mem_file();
    let step = file.write_at(&pm, &mut mm, 0x1_0010, 3, vec![1, 2, 3, 4]);
    assert!(matches!(step, MemWrite::Done(Ok(3))));
    match file.read_at(&pm, &mm, 0x1_0010, 8, vec![9; 4]) {
        MemRead::Done { res, bytes } => {
            assert_eq!(res, Ok(4));
            assert_eq!(bytes, vec![1, 2, 3, 0]);
        }
        MemRead::Fault { .. } => panic!("a fault was taken"),
    }
}

#[test]
fn stretch_of_two_pages_is_read_back_unless_its_pages_are_one() {
    let (pm, mut mm, file) = mem_file();
    mm.spaces[0].pages[1].writable = true;
    let written: Vec<u8> = (0..0x2000).map(|i: usize| (i / 0x1000 + i % 7) as u8).collect();
    let step = file.write_at(&pm, &mut mm, 0x1_0000, 0x2000, written.clone());
    assert!(matches!(step, MemWrite::Done(Ok(0x2000))));
    match file.read_at(&pm, &mm, 0x1_0000, 0x2000, vec![0; 0x2000]) {
        MemRead::Done { bytes, .. } => assert_eq!(bytes, written),
        MemRead::Fault { .. } => panic!("a fault was taken"),
    }
    mm.spaces[0].pages[1].frame = 0x3000;
    let _ = file.write_at(&pm, &mut mm, 0x1_0000, 0x2000, written.clone());
    match file.read_at(&pm, &mm, 0x1_0000, 1, vec![0; 1]) {
        MemRead::Done { bytes, .. } => assert_eq!(bytes, vec![written[0x1000]]),
        MemRead::Fault { .. } => panic!("a fault was taken"),
    }
}

#[test]
fn memory_file_of_a_process_that_is_gone_is_empty() {
    let (mut pm, mut mm, file) = mem_file();
    assert!(matches!(
        file.read_at(&pm, &mm, 0x1_0000, 0, vec![0; 4]),
        MemRead::Done { res: Ok(0), .. }
    ));
    pm.tasks[1].user_vm = None;
    assert!(matches!(
        file.read_at(&pm, &mm, 0x1_0000, 4, vec![0; 4]),
        MemRead::Done { res: Ok(0), .. }
    ));
    assert!(matches!(
        file.write_at(&pm, &mut mm, 0x1_0000, 4, vec![0; 4]),
        MemWrite::Done(Ok(0))
    ));
}

#[test]
fn memory_file_ends_where_memory_does() {
    let (pm, mut mm, file) = mem_file();
    assert!(matches!(
        file.read_at(&pm, &mm, usize::MAX, 2, vec![0; 2]),
        MemRead::Done { res: Err(SystemError::EIO), .. }
    ));
    assert!(matches!(
        file.read_at(&pm, &mm, 0x5000, 2, vec![0; 2]),
        MemRead::Done { res: Err(SystemError::EIO), .. }
    ));
    assert!(matches!(
        file.read_at(&pm, &mm, 0x1_0000, 2, vec![]),
        MemRead::Done { res: Err(SystemError::EIO), .. }
    ));
    assert!(matches!(
        file.write_at(&pm, &mut mm, 0x1_0000, 2, vec![]),
        MemWrite::Done(Ok(0))
    ));
    assert!(matches!(
        file.write_at(&pm, &mut mm, 0x5000, 2, vec![1, 2]),
        MemWrite::Done(Err(SystemError::EIO))
    ));
}

#[test]
fn memory_file_tells_how_much_was_read_before_a_fault_failed() {
    let (pm, mm, file) = mem_file();
    match file.read_at(&pm, &mm, 0x1_1ffe, 4, vec![0; 4]) {
        MemRead::Fault { target, access, fault } => {
            assert_eq!(target, 1);
            assert_eq!(fault.addr, 0x1_2000);
            assert_eq!(MemFileOps::read_end(&access, 4), Ok(2));
            match MemFileOps::read_resume(&pm, &mm, target, 4, access, fault.vm) {
                MemRead::Done { res, bytes } => {
                    assert_eq!(res, Ok(2));
                    assert_eq!(bytes.len(), 4);
                }
                MemRead::Fault { .. } => panic!("a second fault was taken"),
            }
        }
        MemRead::Done { .. } => panic!("no fault was taken"),
    }
}

#[test]
fn memory_file_is_written_after_a_fault() {
    let (pm, mut mm, file) = mem_file();
    match file.write_at(&pm, &mut mm, 0x1_1000, 2, vec![7, 8]) {
        MemWrite::Fault { target, access, fault } => {
            assert_eq!(MemFileOps::write_end(&access), Err(SystemError::EIO));
            mm.spaces[0].pages[1].writable = true;
            let step = MemFileOps::write_resume(&pm, &mut mm, target, access, fault.vm);
            assert!(matches!(step, MemWrite::Done(Ok(2))));
            assert_eq!(&mm.ram[0x1000..0x1002], &[7, 8]);
        }
        MemWrite::Done(_) => panic!("no fault was taken"),
    }
}

#[test]
fn access_goes_on_where_it_stood() {
    let mm = memory();
    let mut access = UserAccess { addr: 0x1_1ffe, buf: vec![9; 4], copied: 0 };
    let step = access.read_on(&mm, Some(0), None);
    assert!(matches!(step, AccessStep::Fault(_)));
    assert_eq!((access.copied, access.buf.clone()), (2, vec![0, 0, 9, 9]));
    assert_eq!(access.read_on(&mm, None, None), AccessStep::Stopped(SystemError::ESRCH));
    let mut access = UserAccess { addr: 0x1_0000, buf: vec![1, 2], copied: 2 };
    assert_eq!(access.read_on(&mm, None, None), AccessStep::Finished);
}
