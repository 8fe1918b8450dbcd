use vstd::prelude::*;

use crate::errors::{errno_code, Errno};
use crate::poll::PollOutcome;
use crate::thread::{park_spec, SchedState, Thread, ThreadState};

verus! {

/// The thread id of the powersave thread.
pub const POWERSAVE_TID: u64 = 0;

/// Time slice of a user thread, in milliseconds.
pub const USER_TIME_SLICE_MS: u64 = 10;
/// Time slice of the powersave thread, in milliseconds.
pub const POWERSAVE_TIME_SLICE_MS: u64 = 50;

/// The value of register `a0` that reports `result` to user space: the
/// result itself, or the negated error number, as a machine word.
pub open spec fn syscall_word(result: Result<isize, Errno>) -> usize {
    match result {
        Ok(v) => v as usize,
        Err(e) => (-errno_code(e)) as usize,
    }
}

/// The `a0` value that reports `result` to user space.
pub fn syscall_return_value(result: Result<isize, Errno>) -> (r: usize)
    ensures
        r == syscall_word(result),
{
    match result {
        Ok(v) => v as usize,
        Err(e) => e.syscall_return_value() as usize,
    }
}

/// What became of a system call after it was polled.
#[derive(Debug, Clone, Copy, PartialEq, Eq, Structural)]
pub enum SyscallOutcome {
    /// It finished: write this into `a0`; the thread resumes after the
    /// `ecall`.
    Completed(usize),
    /// It is pending and parked on the thread.
    Parked,
    /// It finished after replacing the thread's registers: nothing is
    /// written over them, and the thread resumes where they say.
    RegistersReplaced,
}

/// Records the result of polling the system call `task` of the current
/// thread: a finished call clears any pending wake-up, moves the thread past
/// the `ecall` and reports the value for `a0`, unless it replaced the
/// thread's registers (then only the mark of that is cleared); a pending one
/// is parked on the thread (which waits unless it was woken meanwhile).
pub fn finish_syscall_poll<T>(thread: &mut Thread<T>, poll: PollOutcome<Result<isize, Errno>>, task: T) -> (r:
    SyscallOutcome)
    requires
        old(thread).task() is None,
        poll is Ready && !old(thread).regs_replaced() ==> old(thread).pc() + 4 <= usize::MAX,
        poll is Pending ==> old(thread).sched().wakeup_pending || old(thread).sched().state
            != ThreadState::Waiting,
    ensures
        match poll {
            PollOutcome::Ready(result) => {
                &&& final(thread).sched() == (SchedState {
                    wakeup_pending: false,
                    ..old(thread).sched()
                })
                &&& final(thread).task() is None
                &&& !final(thread).regs_replaced()
                &&& if old(thread).regs_replaced() {
                    &&& r == SyscallOutcome::RegistersReplaced
                    &&& final(thread).pc() == old(thread).pc()
                } else {
                    &&& r == SyscallOutcome::Completed(syscall_word(result))
                    &&& final(thread).pc() == old(thread).pc() + 4
                }
            },
            PollOutcome::Pending => {
                &&& r == SyscallOutcome::Parked
                &&& final(thread).sched() == park_spec(old(thread).sched())
                &&& final(thread).pc() == old(thread).pc()
                &&& final(thread).task() == Some(task)
                &&& final(thread).regs_replaced() == old(thread).regs_replaced()
            },
        },
        final(thread).tid_spec() == old(thread).tid_spec(),
{
    match poll {
        PollOutcome::Ready(result) => {
            if thread.registers_replaced() {
                thread.set_registers_replaced(false);
                thread.clear_wakeup_pending();
                return SyscallOutcome::RegistersReplaced;
            }
            let ret = syscall_return_value(result);
            thread.clear_wakeup_pending();
            let pc = thread.get_program_counter();
            thread.set_program_counter(pc + 4);
            SyscallOutcome::Completed(ret)
        },
        PollOutcome::Pending => {
            thread.set_syscall_task_and_suspend(task);
            SyscallOutcome::Parked
        },
    }
}

/// Whether the CPU that handled a system call still owns its thread.
#[derive(Debug, Clone, Copy, PartialEq, Eq, Structural)]
pub enum Ownership {
    /// The thread still runs here: go back to it.
    Continue,
    /// The call put the thread to sleep (or it was woken since): save its
    /// state and schedule.
    Reschedule,
    /// Another CPU runs the thread.
    Stolen(usize),
}

/// Decides, after a system call on CPU `cpu_id`, whether the thread is still
/// this CPU's.
pub fn check_thread_ownership(state: ThreadState, cpu_id: usize) -> (r: Ownership)
    ensures
        r == match state {
            ThreadState::Running { cpu_id: c } => if c == cpu_id {
                Ownership::Continue
            } else {
                Ownership::Stolen(c)
            },
            _ => Ownership::Reschedule,
        },
{
    match state {
        ThreadState::Running { cpu_id: c } => if c == cpu_id {
            Ownership::Continue
        } else {
            Ownership::Stolen(c)
        },
        _ => Ownership::Reschedule,
    }
}

/// What the trap handler does after polling the system call it was entered
/// for.
#[derive(Debug, Clone, Copy, PartialEq, Eq, Structural)]
pub enum SyscallReturn {
    /// The thread still runs here: write `a0` and return to `sepc`, past
    /// the `ecall`.
    Resume { a0: usize, sepc: usize },
    /// The thread no longer runs here (the call put it to sleep, or it is
    /// pending): its registers were saved with `a0` when it finished, and
    /// the CPU schedules.
    Reschedule { saved_a0: Option<usize> },
    /// Another CPU runs the thread while this one is in its system call.
    Stolen(usize),
    /// The call replaced the thread's registers: nothing is written over
    /// them; the CPU loads them if the thread still runs here, else it
    /// schedules.
    RegistersReplaced,
}

/// Decides how a system call entered on CPU `cpu_id` at `sepc` goes on,
/// given its first poll: a finished call that replaced the thread's
/// registers only clears the mark of that; any other finished call reports
/// its result in `a0` and resumes past the `ecall` when the thread still
/// runs here, else the thread resumes there later; a pending call is parked
/// on the thread, which resumes at the `ecall` when polled again.
pub fn complete_syscall<T>(
    thread: &mut Thread<T>,
    poll: PollOutcome<Result<isize, Errno>>,
    task: T,
    cpu_id: usize,
    sepc: usize,
) -> (r: SyscallReturn)
    requires
        old(thread).task() is None,
        sepc + 4 <= usize::MAX,
        poll is Pending ==> old(thread).sched().wakeup_pending || old(thread).sched().state
            != ThreadState::Waiting,
    ensures
        final(thread).tid_spec() == old(thread).tid_spec(),
        match poll {
            PollOutcome::Ready(result) => {
                &&& final(thread).sched() == old(thread).sched()
                &&& final(thread).task() is None
                &&& !final(thread).regs_replaced()
                &&& old(thread).regs_replaced() ==> {
                    &&& r == SyscallReturn::RegistersReplaced
                    &&& final(thread).pc() == old(thread).pc()
                }
                &&& !old(thread).regs_replaced() ==> match old(thread).sched().state {
                    ThreadState::Running { cpu_id: c } => if c == cpu_id {
                        &&& r == SyscallReturn::Resume { a0: syscall_word(result), sepc: (sepc + 4) as usize }
                        &&& final(thread).pc() == old(thread).pc()
                    } else {
                        &&& r == SyscallReturn::Stolen(c)
                        &&& final(thread).pc() == old(thread).pc()
                    },
                    _ => {
                        &&& r == SyscallReturn::Reschedule { saved_a0: Some(syscall_word(result)) }
                        &&& final(thread).pc() == sepc + 4
                    },
                }
            },
            PollOutcome::Pending => {
                &&& r == SyscallReturn::Reschedule { saved_a0: None }
                &&& final(thread).pc() == sepc
                &&& final(thread).sched() == park_spec(old(thread).sched())
                &&& final(thread).task() == Some(task)
                &&& final(thread).regs_replaced() == old(thread).regs_replaced()
            },
        },
{
    match poll {
        PollOutcome::Ready(result) => {
            if thread.registers_replaced() {
                thread.set_registers_replaced(false);
                return SyscallReturn::RegistersReplaced;
            }
            let a0 = syscall_return_value(result);
            match check_thread_ownership(thread.get_state(), cpu_id) {
                Ownership::Continue => SyscallReturn::Resume { a0, sepc: sepc + 4 },
                Ownership::Stolen(c) => SyscallReturn::Stolen(c),
                Ownership::Reschedule => {
                    thread.set_program_counter(sepc + 4);
                    SyscallReturn::Reschedule { saved_a0: Some(a0) }
                },
            }
        },
        PollOutcome::Pending => {
            thread.set_program_counter(sepc);
            thread.set_syscall_task_and_suspend(task);
            SyscallReturn::Reschedule { saved_a0: None }
        },
    }
}

/// Puts the thread that ran on CPU `cpu_id` back in line: if it still runs
/// here it becomes runnable and resumes at `sepc`, and the answer is to queue
/// it; the powersave thread and threads that stopped running here are not
/// queued.
pub fn queue_back<T>(thread: &mut Thread<T>, cpu_id: usize, sepc: usize) -> (r: bool)
    ensures
        r == (old(thread).tid_spec().0 != POWERSAVE_TID && old(thread).sched().state == (
        ThreadState::Running { cpu_id })),
        r ==> final(thread).sched() == (SchedState {
            state: ThreadState::Runnable,
            ..old(thread).sched()
        }) && final(thread).pc() == sepc,
        !r ==> final(thread).sched() == old(thread).sched() && final(thread).pc() == old(thread).pc(),
        final(thread).task() == old(thread).task(),
        final(thread).tid_spec() == old(thread).tid_spec(),
{
    if thread.get_tid().as_u64() == POWERSAVE_TID {
        return false;
    }
    if thread.get_state() == (ThreadState::Running { cpu_id }) {
        thread.set_state(ThreadState::Runnable);
        thread.set_program_counter(sepc);
        true
    } else {
        false
    }
}

/// Takes a thread from the run queue for CPU `cpu_id` if it is runnable;
/// stale entries are refused.
pub fn accept_candidate<T>(thread: &mut Thread<T>, cpu_id: usize) -> (r: bool)
    ensures
        r == (old(thread).sched().state == ThreadState::Runnable),
        r ==> final(thread).sched() == (SchedState {
            state: ThreadState::Running { cpu_id },
            ..old(thread).sched()
        }),
        !r ==> final(thread).sched() == old(thread).sched(),
        final(thread).task() == old(thread).task(),
        final(thread).pc() == old(thread).pc(),
{
    if thread.get_state() == ThreadState::Runnable {
        thread.set_state(ThreadState::Running { cpu_id });
        true
    } else {
        false
    }
}

/// What one round of picking the next thread decided.
#[derive(Debug, Clone, Copy, PartialEq, Eq, Structural)]
pub enum NextThread {
    /// No process is left: the system shuts down.
    Shutdown,
    /// The thread taken from the run queue became stale while it waited
    /// (killed, or waiting again): it is dropped and the round starts over.
    Stale,
    /// The thread taken from the run queue now runs on this CPU.
    Candidate,
    /// The run queue was empty: the powersave thread now runs on this CPU.
    Powersave,
}

/// One round of picking the thread CPU `cpu_id` runs next, once the thread
/// that ran before is back in line: shut down when no process is left;
/// otherwise take the thread the run queue handed out, when it is still
/// runnable, or start over without it; with an empty run queue, run the
/// powersave thread.
pub fn choose_next<T>(
    table_empty: bool,
    candidate: Option<&mut Thread<T>>,
    powersave: &mut Thread<T>,
    cpu_id: usize,
) -> (r: NextThread)
    ensures
        table_empty ==> r == NextThread::Shutdown && final(powersave).sched() == old(powersave).sched(),
        !table_empty && candidate is None ==> r == NextThread::Powersave && final(powersave).sched() == (
        SchedState { state: ThreadState::Running { cpu_id }, ..old(powersave).sched() }),
        !table_empty && candidate is Some ==> final(powersave).sched() == old(powersave).sched(),
        !table_empty ==> (candidate matches Some(c) ==> {
            &&& r == NextThread::Candidate || r == NextThread::Stale
            &&& (r == NextThread::Candidate) == (c.sched().state == ThreadState::Runnable)
            &&& r == NextThread::Candidate ==> final(c).sched() == (SchedState {
                state: ThreadState::Running { cpu_id },
                ..c.sched()
            })
            &&& r == NextThread::Stale ==> final(c).sched() == c.sched()
            &&& final(c).task() == c.task()
            &&& final(c).pc() == c.pc()
        }),
        final(powersave).task() == old(powersave).task(),
        final(powersave).pc() == old(powersave).pc(),
        final(powersave).tid_spec() == old(powersave).tid_spec(),
{
    if table_empty {
        return NextThread::Shutdown;
    }
    match candidate {
        Some(c) => {
            if accept_candidate(c, cpu_id) {
                NextThread::Candidate
            } else {
                NextThread::Stale
            }
        },
        None => {
            powersave.set_state(ThreadState::Running { cpu_id });
            NextThread::Powersave
        },
    }
}

/// How the chosen thread goes on.
pub enum ResumeMode<T> {
    /// Its pending system call is polled again in the kernel.
    KernelSyscallTask(T),
    /// It returns to its own code at this address.
    Userspace(usize),
    /// It is not this CPU's to run.
    NotOwned,
}

/// Decides how the thread chosen for CPU `cpu_id` goes on: first its pending
/// system call, else back to its code when it runs here.
pub fn resume_mode<T>(thread: &mut Thread<T>, cpu_id: usize) -> (r: ResumeMode<T>)
    ensures
        match old(thread).task() {
            Some(t) => r matches ResumeMode::KernelSyscallTask(u) && u == t && final(thread).task() is None,
            None => final(thread).task() is None && if old(thread).sched().state == (ThreadState::Running {
                cpu_id,
            }) {
                r matches ResumeMode::Userspace(pc) && pc == old(thread).pc()
            } else {
                r is NotOwned
            },
        },
        final(thread).sched() == old(thread).sched(),
        final(thread).pc() == old(thread).pc(),
{
    match thread.take_syscall_task() {
        Some(task) => ResumeMode::KernelSyscallTask(task),
        None => {
            if thread.get_state() == (ThreadState::Running { cpu_id }) {
                ResumeMode::Userspace(thread.get_program_counter())
            } else {
                ResumeMode::NotOwned
            }
        },
    }
}

/// The time slice of the next thread: longer for the powersave thread.
pub fn time_slice(is_powersave: bool) -> (r: u64)
    ensures
        r == if is_powersave {
            POWERSAVE_TIME_SLICE_MS
        } else {
            USER_TIME_SLICE_MS
        },
{
    if is_powersave {
        POWERSAVE_TIME_SLICE_MS
    } else {
        USER_TIME_SLICE_MS
    }
}

} // verus!
