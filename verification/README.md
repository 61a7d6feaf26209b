# The scheduler and the tracing of processes of DragonOS

A Verus library: the core of the process scheduler, tracing of one process by another, and what
both rest on. Every function is proved against its contract, with two exceptions that are believed:
`current_rsp` in `src/ptrace/stop.rs`, which reads the stack pointer of the machine and promises
nothing of it, and the contracts of the traits `Scheduler` and `FairScheduler`, which a kernel
implements with its scheduling classes.

## Layout

- `src/sched`: run queues and their clocks, queueing and picking tasks, giving the processor to
  another task, waking, forking, the timer tick, balancing, priorities and load weights.
- `src/ptrace`: who traces whom, attaching, steering and letting go, tracing stops and what they
  report, registers, system calls, and words of memory.
- `src/mm`, `src/procfs`: the memory of another process, with the page faults that have to be
  taken for it, and the same memory as a file.
- `src/smp`, `src/interrupt`: sets of processors, setting on which processors a task may run,
  bringing up a processor, and the way through an interrupt.
- `src/process`, `src/libs`: tasks, signals, preemption counts and spin locks.
- `tests`: the library at work on small machines.
- `app`: the parts that touch the machine. What the library decides is carried out there.

## How it works

`ProcessManager` holds all tasks, and what belongs to the processor that is at work. What the
kernel has to do to the world outside of these tables (send a signal, interrupt a processor,
switch to a task) is noted as an `Action`, in order, and carried out by the caller. Where an
operation has to wait for an answer from outside (a page fault, the choice of a processor, a task
that stands still), it returns a step, and another function goes on with the answer.

Scheduling classes are implementations of the trait `Scheduler`; the fair one implements
`FairScheduler`, too. What a class leaves alone of the tables is stated as `RqState::spares`, and
every contract of the scheduler rests on that.
