use vstd::prelude::*;

use std::collections::BTreeMap;
use std::collections::VecDeque;

verus! {

broadcast use {vstd::std_specs::btree::group_btree_axioms, vstd::laws_cmp::group_laws_cmp};

/// The number of a kernel task.
#[derive(Debug, Clone, Copy, PartialEq, Eq, Structural)]
pub struct TaskId(pub u64);

/// The source of task numbers.
pub struct TaskIdCounter {
    next: u64,
}

impl TaskIdCounter {
    /// The number handed out next.
    pub closed spec fn peek(&self) -> u64 {
        self.next
    }

    /// Numbers from zero.
    pub fn new() -> (r: Self)
        ensures
            r.peek() == 0,
    {
        TaskIdCounter { next: 0 }
    }
}

impl TaskId {
    /// The next task number; the numbers must not run out.
    pub fn new(counter: &mut TaskIdCounter) -> (r: Self)
        requires
            old(counter).peek() != u64::MAX,
        ensures
            r.0 == old(counter).peek(),
            final(counter).peek() == old(counter).peek() + 1,
    {
        let next = counter.next;
        counter.next = counter.next + 1;
        TaskId(next)
    }
}

/// A kernel task: its number and the work it does (polled by its owner).
pub struct Task<F> {
    pub task_id: TaskId,
    pub future: F,
}

impl<F> Task<F> {
    /// A task doing `future`, with the next task number.
    pub fn new(counter: &mut TaskIdCounter, future: F) -> (r: Self)
        requires
            old(counter).peek() != u64::MAX,
        ensures
            r.task_id.0 == old(counter).peek(),
            r.future == future,
            final(counter).peek() == old(counter).peek() + 1,
    {
        Task { task_id: TaskId::new(counter), future }
    }
}

/// What polling the ready kernel tasks does next.
pub enum ReadyStep<T> {
    /// No task is ready.
    Idle,
    /// The task with this number is being polled elsewhere; its wake-up was
    /// put back in line, and polling stops for now.
    Busy(usize),
    /// Poll the task with this number, and hand it to `put_back` while it is pending.
    Run(usize, T),
}

/// The kernel tasks: the tasks by number, the numbers of those ready to be
/// polled in order, and the next number.
pub struct KernelTasks<T> {
    tasks: BTreeMap<usize, T>,
    ready: VecDeque<usize>,
    next_id: usize,
}

impl<T> KernelTasks<T> {
    /// The tasks not being polled, by number.
    pub closed spec fn tasks(&self) -> Map<usize, T> {
        self.tasks@
    }

    /// The numbers of the ready tasks, first to poll first.
    pub closed spec fn ready(&self) -> Seq<usize> {
        self.ready@
    }

    /// The next task number.
    pub closed spec fn next_id(&self) -> usize {
        self.next_id
    }

    /// No tasks.
    pub fn new() -> (r: Self)
        ensures
            r.tasks() == Map::<usize, T>::empty(),
            r.ready() == Seq::<usize>::empty(),
            r.next_id() == 0,
    {
        KernelTasks { tasks: BTreeMap::new(), ready: VecDeque::new(), next_id: 0 }
    }

    /// Adds `task` under the next number (which wraps around) and makes it
    /// ready.
    pub fn spawn(&mut self, task: T) -> (r: usize)
        ensures
            r == old(self).next_id(),
            final(self).next_id() == if old(self).next_id() == usize::MAX {
                0
            } else {
                (old(self).next_id() + 1) as usize
            },
            final(self).tasks() == old(self).tasks().insert(r, task),
            final(self).ready() == old(self).ready().push(r),
    {
        let id = self.next_id;
        self.next_id = self.next_id.wrapping_add(1);
        self.tasks.insert(id, task);
        self.ready.push_back(id);
        id
    }

    /// Takes the next ready task out to be polled.
    pub fn next_ready(&mut self) -> (r: ReadyStep<T>)
        ensures
            final(self).next_id() == old(self).next_id(),
            old(self).ready().len() == 0 ==> r is Idle && final(self).tasks() == old(self).tasks()
                && final(self).ready() == old(self).ready(),
            old(self).ready().len() > 0 ==> {
                let id = old(self).ready()[0];
                if old(self).tasks().contains_key(id) {
                    &&& r matches ReadyStep::Run(i, t) && i == id && t == old(self).tasks()[id]
                    &&& final(self).tasks() == old(self).tasks().remove(id)
                    &&& final(self).ready() == old(self).ready().drop_first()
                } else {
                    &&& r matches ReadyStep::Busy(i) && i == id
                    &&& final(self).tasks() == old(self).tasks()
                    &&& final(self).ready() == old(self).ready().drop_first().push(id)
                }
            },
    {
        let id = match self.ready.pop_front() {
            Some(id) => id,
            None => {
                return ReadyStep::Idle;
            },
        };
        match self.tasks.remove(&id) {
            Some(task) => ReadyStep::Run(id, task),
            None => {
                self.ready.push_back(id);
                ReadyStep::Busy(id)
            },
        }
    }

    /// Puts back a task whose poll was not finished.
    pub fn put_back(&mut self, id: usize, task: T)
        ensures
            final(self).tasks() == old(self).tasks().insert(id, task),
            final(self).ready() == old(self).ready(),
            final(self).next_id() == old(self).next_id(),
    {
        self.tasks.insert(id, task);
    }

    /// Makes task `id` ready again (its waker fired).
    pub fn wake(&mut self, id: usize)
        ensures
            final(self).ready() == old(self).ready().push(id),
            final(self).tasks() == old(self).tasks(),
            final(self).next_id() == old(self).next_id(),
    {
        self.ready.push_back(id);
    }
}

} // verus!
