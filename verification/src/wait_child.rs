use vstd::prelude::*;

use crate::errors::Errno;
use crate::pid::Tid;
use crate::poll::PollOutcome;

verus! {

/// A `wait4` on the children of a process: whose, for which child (a
/// negative number for any), and whether to return at once when none has
/// ended.
#[derive(Debug, Clone, Copy, PartialEq, Eq, Structural)]
pub struct WaitChild {
    pub parent_main_tid: Tid,
    pub pid: i32,
    pub wnohang: bool,
}

impl WaitChild {
    /// A wait of `parent_main_tid` for `pid`.
    pub fn new(parent_main_tid: Tid, pid: i32, wnohang: bool) -> (r: Self)
        ensures
            r.parent_main_tid == parent_main_tid,
            r.pid == pid,
            r.wnohang == wnohang,
    {
        WaitChild { parent_main_tid, pid, wnohang }
    }

    /// One poll of the wait, given the ended child the process table gave up
    /// (its id and status) and whether the parent has any child at all: the
    /// ended child if there is one; `ECHILD` without children; nothing (a
    /// zero id) when not waiting; else pending, and the caller registers the
    /// waker.
    pub fn poll(&self, zombie: Option<(Tid, i32)>, has_any_child: bool) -> (r: PollOutcome<
        Result<(Tid, i32), Errno>,
    >)
        ensures
            r == match zombie {
                Some(z) => PollOutcome::Ready(Ok(z)),
                None => if !has_any_child {
                    PollOutcome::Ready(Err(Errno::ECHILD))
                } else if self.wnohang {
                    PollOutcome::Ready(Ok((Tid(0), 0i32)))
                } else {
                    PollOutcome::Pending
                },
            },
    {
        if let Some(z) = zombie {
            return PollOutcome::Ready(Ok(z));
        }
        if !has_any_child {
            return PollOutcome::Ready(Err(Errno::ECHILD));
        }
        if self.wnohang {
            return PollOutcome::Ready(Ok((Tid(0), 0)));
        }
        PollOutcome::Pending
    }
}

} // verus!
