use vstd::prelude::*;

use std::collections::BTreeSet;
use vstd::std_specs::iter::IteratorSpec;

use crate::errors::Errno;
use crate::pid::Tid;

verus! {

broadcast use {vstd::std_specs::btree::group_btree_axioms, vstd::laws_cmp::group_laws_cmp};

/// Number of signals a thread has a handler slot for.
pub const NSIG: u32 = 64;

/// Where a thread is in its life on the CPUs.
#[derive(Debug, Clone, Copy, PartialEq, Eq, Structural)]
pub enum ThreadState {
    Running { cpu_id: usize },
    Runnable,
    Waiting,
}

/// How a signal is handled: the handler's address (zero for the default),
/// flags and the signals blocked while it runs.
#[allow(non_camel_case_types)]
#[derive(Debug, Clone, Copy, PartialEq, Eq, Structural)]
pub struct sigaction {
    pub sa_handler: usize,
    pub sa_flags: u64,
    pub sa_mask: u64,
}

/// An alternate signal stack.
#[allow(non_camel_case_types)]
#[derive(Debug, Clone, Copy, PartialEq, Eq, Structural)]
pub struct sigaltstack {
    pub ss_sp: usize,
    pub ss_flags: i32,
    pub ss_size: usize,
}

/// The part of a thread that decides whether it sleeps: its state and
/// whether a wake-up arrived while it was still running.
#[derive(Debug, Clone, Copy, PartialEq, Eq, Structural)]
pub struct SchedState {
    pub state: ThreadState,
    pub wakeup_pending: bool,
}

/// A wake-up: a waiting thread becomes runnable; a running one remembers
/// that it was woken; a runnable one is left alone.
pub open spec fn wake_up_spec(s: SchedState) -> SchedState {
    match s.state {
        ThreadState::Waiting => SchedState { state: ThreadState::Runnable, ..s },
        ThreadState::Running { .. } => SchedState { wakeup_pending: true, ..s },
        ThreadState::Runnable => s,
    }
}

/// Parking a thread on its syscall: it stays schedulable when a wake-up
/// already arrived (which is then used up), else it waits.
pub open spec fn park_spec(s: SchedState) -> SchedState {
    if s.wakeup_pending {
        SchedState { wakeup_pending: false, ..s }
    } else {
        SchedState { state: ThreadState::Waiting, ..s }
    }
}

/// The next thread number after `n`; zero is the powersave thread.
pub struct TidCounter {
    next: u64,
}

impl TidCounter {
    /// The number the counter hands out next.
    pub closed spec fn peek(&self) -> u64 {
        self.next
    }

    /// A counter starting at 1.
    pub fn new() -> (r: Self)
        ensures
            r.peek() == 1,
    {
        TidCounter { next: 1 }
    }

    /// Hands out the next thread id; the numbers must not run out.
    pub fn get_next_tid(&mut self) -> (r: Tid)
        requires
            old(self).peek() < u64::MAX,
        ensures
            r.0 == old(self).peek(),
            final(self).peek() == old(self).peek() + 1,
    {
        let t = self.next;
        self.next = self.next + 1;
        Tid(t)
    }
}

/// The ids of a set of threads come out of its iterator in increasing order.
proof fn lemma_set_keys_increasing(set: &BTreeSet<u64>)
    ensures
        forall|a: int, b: int|
            0 <= a < b < vstd::std_specs::btree::spec_btree_keys_iter(set).remaining().len()
                ==> *vstd::std_specs::btree::spec_btree_keys_iter(set).remaining()[a]
                < *vstd::std_specs::btree::spec_btree_keys_iter(set).remaining()[b],
{
    let q = vstd::std_specs::btree::spec_btree_keys_iter(set).remaining();
    assert(vstd::laws_cmp::obeys_cmp::<u64>());
    assert(vstd::laws_cmp::obeys_cmp::<&u64>());
    assert(vstd::std_specs::btree::increasing_seq(q));
    assert forall|a: int, b: int| 0 <= a < b < q.len() implies *q[a] < *q[b] by {
        assert(vstd::std_specs::cmp::OrdSpec::cmp_spec(&q[a], &q[b]) is Less);
    }
}

/// A thread: its id, name, where it resumes, its scheduling state, the
/// threads to tell when it dies, its signal handling and its pending system
/// call (of type `T`).
pub struct Thread<T> {
    tid: Tid,
    process_name: String,
    program_counter: usize,
    state: ThreadState,
    wakeup_pending: bool,
    in_kernel_mode: bool,
    notify_on_die: BTreeSet<u64>,
    clear_child_tid: Option<usize>,
    sigaltstack: sigaltstack,
    sigmask: u64,
    sigactions: Vec<sigaction>,
    syscall_task: Option<T>,
    registers_replaced: bool,
}

impl<T> Thread<T> {
    /// The thread id.
    pub closed spec fn tid_spec(&self) -> Tid {
        self.tid
    }

    /// The name of the thread's process.
    pub closed spec fn name_spec(&self) -> Seq<char> {
        self.process_name@
    }

    /// Where the thread resumes.
    pub closed spec fn pc(&self) -> usize {
        self.program_counter
    }

    /// Its scheduling state.
    pub closed spec fn sched(&self) -> SchedState {
        SchedState { state: self.state, wakeup_pending: self.wakeup_pending }
    }

    /// Whether it runs in kernel mode.
    pub closed spec fn kernel_mode(&self) -> bool {
        self.in_kernel_mode
    }

    /// The ids of the threads to tell when it dies.
    pub closed spec fn notified(&self) -> Set<u64> {
        self.notify_on_die@
    }

    /// The user address cleared when it exits, if set.
    pub closed spec fn child_tid_ptr(&self) -> Option<usize> {
        self.clear_child_tid
    }

    /// Its alternate signal stack.
    pub closed spec fn altstack(&self) -> sigaltstack {
        self.sigaltstack
    }

    /// The signals it blocks.
    pub closed spec fn mask(&self) -> u64 {
        self.sigmask
    }

    /// Its signal handlers, by signal number.
    pub closed spec fn actions(&self) -> Seq<sigaction> {
        self.sigactions@
    }

    /// Its pending system call, if any.
    pub closed spec fn task(&self) -> Option<T> {
        self.syscall_task
    }

    /// Whether a system call replaced its whole register file (as a new
    /// program image does), so that the call's result must not be written
    /// over it.
    pub closed spec fn regs_replaced(&self) -> bool {
        self.registers_replaced
    }

    /// One handler slot per signal.
    pub open spec fn wf(&self) -> bool {
        self.actions().len() == NSIG
    }

    /// A runnable thread with no pending system call, no signal handlers and
    /// nothing to notify.
    pub fn new(tid: Tid, process_name: String, program_counter: usize, in_kernel_mode: bool) -> (r: Self)
        ensures
            r.wf(),
            r.tid_spec() == tid,
            r.name_spec() == process_name@,
            r.pc() == program_counter,
            r.sched() == (SchedState { state: ThreadState::Runnable, wakeup_pending: false }),
            r.kernel_mode() == in_kernel_mode,
            r.notified() == Set::<u64>::empty(),
            r.child_tid_ptr() is None,
            r.altstack() == (sigaltstack { ss_sp: 0, ss_flags: 0, ss_size: 0 }),
            r.mask() == 0,
            forall|i: int| 0 <= i < NSIG ==> #[trigger] r.actions()[i] == (sigaction {
                sa_handler: 0,
                sa_flags: 0,
                sa_mask: 0,
            }),
            r.task() is None,
            !r.regs_replaced(),
    {
        let mut sigactions: Vec<sigaction> = Vec::new();
        let mut i: u32 = 0;
        while i < NSIG
            invariant
                i <= NSIG,
                sigactions@.len() == i,
                forall|j: int| 0 <= j < i ==> #[trigger] sigactions@[j] == (sigaction {
                    sa_handler: 0,
                    sa_flags: 0,
                    sa_mask: 0,
                }),
            decreases NSIG - i,
        {
            sigactions.push(sigaction { sa_handler: 0, sa_flags: 0, sa_mask: 0 });
            i = i + 1;
        }
        Thread {
            tid,
            process_name,
            program_counter,
            state: ThreadState::Runnable,
            wakeup_pending: false,
            in_kernel_mode,
            notify_on_die: BTreeSet::new(),
            clear_child_tid: None,
            sigaltstack: sigaltstack { ss_sp: 0, ss_flags: 0, ss_size: 0 },
            sigmask: 0,
            sigactions,
            syscall_task: None,
            registers_replaced: false,
        }
    }

    /// The name of the thread's process.
    pub fn get_name(&self) -> (r: &str)
        ensures
            r@ == self.name_spec(),
    {
        self.process_name.as_str()
    }

    /// Parks the thread on the pending system call `task`: it waits, unless a
    /// wake-up arrived since the call last returned pending.
    pub fn set_syscall_task_and_suspend(&mut self, task: T)
        requires
            old(self).task() is None,
            old(self).sched().wakeup_pending || old(self).sched().state != ThreadState::Waiting,
        ensures
            final(self).task() == Some(task),
            final(self).sched() == park_spec(old(self).sched()),
            final(self).tid_spec() == old(self).tid_spec(),
            final(self).pc() == old(self).pc(),
            final(self).actions() == old(self).actions(),
            final(self).regs_replaced() == old(self).regs_replaced(),
    {
        self.syscall_task = Some(task);
        if self.wakeup_pending {
            self.wakeup_pending = false;
        } else {
            self.suspend();
        }
    }

    /// Wakes the thread (see `wake_up_spec`).
    pub fn wake_up(&mut self)
        ensures
            final(self).sched() == wake_up_spec(old(self).sched()),
            final(self).task() == old(self).task(),
            final(self).tid_spec() == old(self).tid_spec(),
            final(self).pc() == old(self).pc(),
            final(self).actions() == old(self).actions(),
    {
        match self.state {
            ThreadState::Waiting => {
                self.state = ThreadState::Runnable;
            },
            ThreadState::Running { .. } => {
                self.wakeup_pending = true;
            },
            ThreadState::Runnable => {},
        }
    }

    fn suspend(&mut self)
        requires
            old(self).sched().state != ThreadState::Waiting,
        ensures
            final(self).sched() == (SchedState { state: ThreadState::Waiting, ..old(self).sched() }),
            final(self).task() == old(self).task(),
            final(self).tid_spec() == old(self).tid_spec(),
            final(self).pc() == old(self).pc(),
            final(self).actions() == old(self).actions(),
            final(self).regs_replaced() == old(self).regs_replaced(),
    {
        self.state = ThreadState::Waiting;
    }

    /// Whether a system call is parked on the thread.
    pub fn has_syscall_task(&self) -> (r: bool)
        ensures
            r == self.task() is Some,
    {
        self.syscall_task.is_some()
    }

    /// Whether a wake-up arrived while the thread was running.
    pub fn is_wakeup_pending(&self) -> (r: bool)
        ensures
            r == self.sched().wakeup_pending,
    {
        self.wakeup_pending
    }

    /// The thread id.
    pub fn get_tid(&self) -> (r: Tid)
        ensures
            r == self.tid_spec(),
    {
        self.tid
    }

    /// Asks to tell thread `tid` when this one dies.
    pub fn add_notify_on_die(&mut self, tid: Tid)
        ensures
            final(self).notified() == old(self).notified().insert(tid.0),
            final(self).sched() == old(self).sched(),
            final(self).actions() == old(self).actions(),
    {
        self.notify_on_die.insert(tid.0);
    }

    /// The threads to tell when this one dies, as thread ids.
    pub fn get_notifies_on_die(&self) -> (r: Vec<Tid>)
        ensures
            r@.len() == self.notified().len(),
            forall|i: int| 0 <= i < r@.len() ==> self.notified().contains((#[trigger] r@[i]).0),
            forall|t: u64| self.notified().contains(t) ==> exists|i: int| 0 <= i < r@.len() && (#[trigger] r@[i]).0 == t,
            forall|i: int, j: int| 0 <= i < j < r@.len() ==> (#[trigger] r@[i]).0 < (#[trigger] r@[j]).0,
    {
        let mut out: Vec<Tid> = Vec::new();
        let ghost s = self.notify_on_die@;
        for t in it: self.notify_on_die.iter()
            invariant
                s == self.notify_on_die@,
                it.seq() == vstd::std_specs::btree::spec_btree_keys_iter(&self.notify_on_die).remaining(),
                out@.len() == it.index(),
                forall|i: int| 0 <= i < out@.len() ==> (#[trigger] out@[i]).0 == *it.seq()[i],
        {
            out.push(Tid(*t));
        }
        proof {
            let q = vstd::std_specs::btree::spec_btree_keys_iter(&self.notify_on_die).remaining();
            assert forall|i: int| 0 <= i < out@.len() implies s.contains((#[trigger] out@[i]).0) by {
                assert(q.unref()[i] == *q[i]);
                assert(q.unref().contains(*q[i]));
                assert(q.unref().to_set().contains(*q[i]));
            }
            lemma_set_keys_increasing(&self.notify_on_die);
            assert forall|i: int, j: int| 0 <= i < j < out@.len() implies (#[trigger] out@[i]).0 < (
            #[trigger] out@[j]).0 by {
                assert(out@[i].0 == *q[i] && out@[j].0 == *q[j]);
            }
            assert forall|t: u64| s.contains(t) implies exists|i: int| 0 <= i < out@.len() && (#[trigger] out@[i]).0 == t by {
                assert(q.unref().to_set().contains(t));
                let i = choose|i: int| 0 <= i < q.unref().len() && q.unref()[i] == t;
                assert(out@[i].0 == t);
            }
        }
        out
    }

    /// Replaces the handler of signal `sig` and returns the old one;
    /// `EINVAL` for a signal number out of range.
    pub fn set_sigaction(&mut self, sig: u32, action: sigaction) -> (r: Result<sigaction, Errno>)
        requires
            old(self).wf(),
        ensures
            final(self).wf(),
            sig >= NSIG ==> r == Err::<sigaction, Errno>(Errno::EINVAL) && final(self).actions()
                == old(self).actions(),
            sig < NSIG ==> r == Ok::<sigaction, Errno>(old(self).actions()[sig as int]) && final(
                self).actions() == old(self).actions().update(sig as int, action),
            final(self).sched() == old(self).sched(),
            final(self).mask() == old(self).mask(),
    {
        if sig >= NSIG {
            return Err(Errno::EINVAL);
        }
        let old_action = self.sigactions[sig as usize];
        self.sigactions.set(sig as usize, action);
        Ok(old_action)
    }

    /// The handler of signal `sig`; `EINVAL` for a signal number out of range.
    pub fn get_sigaction(&self, sig: u32) -> (r: Result<sigaction, Errno>)
        requires
            self.wf(),
        ensures
            sig >= NSIG ==> r == Err::<sigaction, Errno>(Errno::EINVAL),
            sig < NSIG ==> r == Ok::<sigaction, Errno>(self.actions()[sig as int]),
    {
        if sig >= NSIG {
            return Err(Errno::EINVAL);
        }
        Ok(self.sigactions[sig as usize])
    }

    /// The blocked signals.
    pub fn get_sigset(&self) -> (r: u64)
        ensures
            r == self.mask(),
    {
        self.sigmask
    }

    /// Replaces the blocked signals and returns the old set.
    pub fn set_sigset(&mut self, sigmask: u64) -> (r: u64)
        ensures
            r == old(self).mask(),
            final(self).mask() == sigmask,
            final(self).actions() == old(self).actions(),
            final(self).sched() == old(self).sched(),
    {
        let old_mask = self.sigmask;
        self.sigmask = sigmask;
        old_mask
    }

    /// The alternate signal stack.
    pub fn get_sigaltstack(&self) -> (r: sigaltstack)
        ensures
            r == self.altstack(),
    {
        self.sigaltstack
    }

    /// Sets the alternate signal stack.
    pub fn set_sigaltstack(&mut self, stack: &sigaltstack)
        ensures
            final(self).altstack() == *stack,
            final(self).actions() == old(self).actions(),
            final(self).sched() == old(self).sched(),
    {
        self.sigaltstack = *stack;
    }

    /// Forgets a wake-up that arrived while running.
    pub fn clear_wakeup_pending(&mut self)
        ensures
            final(self).sched() == (SchedState { wakeup_pending: false, ..old(self).sched() }),
            final(self).tid_spec() == old(self).tid_spec(),
            final(self).task() == old(self).task(),
            final(self).pc() == old(self).pc(),
            final(self).actions() == old(self).actions(),
            final(self).regs_replaced() == old(self).regs_replaced(),
    {
        self.wakeup_pending = false;
    }

    /// Takes the pending system call out of the thread.
    pub fn take_syscall_task(&mut self) -> (r: Option<T>)
        ensures
            r == old(self).task(),
            final(self).task() is None,
            final(self).sched() == old(self).sched(),
            final(self).pc() == old(self).pc(),
            final(self).actions() == old(self).actions(),
    {
        self.syscall_task.take()
    }

    /// Remembers where to clear the child's thread id when the thread dies.
    pub fn set_clear_child_tid(&mut self, clear_child_tid: usize)
        ensures
            final(self).child_tid_ptr() == Some(clear_child_tid),
            final(self).sched() == old(self).sched(),
            final(self).actions() == old(self).actions(),
    {
        self.clear_child_tid = Some(clear_child_tid);
    }

    /// Where to clear the child's thread id, if set.
    pub fn get_clear_child_tid(&self) -> (r: Option<usize>)
        ensures
            r == self.child_tid_ptr(),
    {
        self.clear_child_tid
    }

    /// Whether a system call replaced the thread's registers.
    pub fn registers_replaced(&self) -> (r: bool)
        ensures
            r == self.regs_replaced(),
    {
        self.registers_replaced
    }

    /// Records whether a system call replaced the thread's registers.
    pub fn set_registers_replaced(&mut self, replaced: bool)
        ensures
            final(self).regs_replaced() == replaced,
            final(self).sched() == old(self).sched(),
            final(self).task() == old(self).task(),
            final(self).tid_spec() == old(self).tid_spec(),
            final(self).pc() == old(self).pc(),
            final(self).actions() == old(self).actions(),
    {
        self.registers_replaced = replaced;
    }

    /// Where the thread resumes.
    pub fn get_program_counter(&self) -> (r: usize)
        ensures
            r == self.pc(),
    {
        self.program_counter
    }

    /// Sets where the thread resumes.
    pub fn set_program_counter(&mut self, program_counter: usize)
        ensures
            final(self).pc() == program_counter,
            final(self).sched() == old(self).sched(),
            final(self).task() == old(self).task(),
            final(self).tid_spec() == old(self).tid_spec(),
            final(self).actions() == old(self).actions(),
            final(self).regs_replaced() == old(self).regs_replaced(),
    {
        self.program_counter = program_counter;
    }

    /// The scheduling state.
    pub fn get_state(&self) -> (r: ThreadState)
        ensures
            r == self.sched().state,
    {
        self.state
    }

    /// Sets the scheduling state.
    pub fn set_state(&mut self, state: ThreadState)
        ensures
            final(self).sched() == (SchedState { state, ..old(self).sched() }),
            final(self).pc() == old(self).pc(),
            final(self).task() == old(self).task(),
            final(self).tid_spec() == old(self).tid_spec(),
            final(self).actions() == old(self).actions(),
    {
        self.state = state;
    }

    /// Whether the thread runs in kernel mode.
    pub fn get_in_kernel_mode(&self) -> (r: bool)
        ensures
            r == self.kernel_mode(),
    {
        self.in_kernel_mode
    }
}

/// No wake-up is lost: a thread woken while still running, after its system
/// call returned pending and before it was parked, is not put to sleep.
pub proof fn lemma_wake_before_park_not_lost(s: SchedState, cpu_id: usize)
    requires
        s.state == (ThreadState::Running { cpu_id }),
    ensures
        park_spec(wake_up_spec(s)).state == (ThreadState::Running { cpu_id }),
        !park_spec(wake_up_spec(s)).wakeup_pending,
{
}

/// A thread parked without a wake-up waits, and the next wake-up makes it
/// runnable again.
pub proof fn lemma_park_then_wake_runnable(s: SchedState)
    requires
        !s.wakeup_pending,
        s.state != ThreadState::Waiting,
    ensures
        park_spec(s).state == ThreadState::Waiting,
        wake_up_spec(park_spec(s)).state == ThreadState::Runnable,
{
}

/// Waking twice is waking once.
pub proof fn lemma_wake_up_idempotent(s: SchedState)
    ensures
        wake_up_spec(wake_up_spec(s)) == wake_up_spec(s),
{
}

} // verus!
