use vstd::prelude::*;

use crate::headers::{
    SIGABRT, SIGALRM, SIGBUS, SIGCHLD, SIGCONT, SIGFPE, SIGHUP, SIGILL, SIGINT, SIGIO, SIGKILL,
    SIGPIPE, SIGPROF, SIGPWR, SIGQUIT, SIGSEGV, SIGSTKFLT, SIGSTOP, SIGSYS, SIGTERM, SIGTRAP,
    SIGTSTP, SIGTTIN, SIGTTOU, SIGURG, SIGUSR1, SIGUSR2, SIGVTALRM, SIGWINCH, SIGXCPU, SIGXFSZ,
};
use crate::util::{bit, lemma_clear_bit, lemma_set_bit};

verus! {

/// How a process ended.
#[derive(Debug, Clone, Copy, PartialEq, Eq, Structural)]
pub enum ExitStatus {
    /// It exited with this code.
    Exited(u8),
    /// It was killed by this signal.
    Signaled(u8),
}

impl ExitStatus {
    /// The status word `wait4` reports: the exit code in bits 8..16, or the
    /// signal number in the low seven bits.
    pub fn to_wstatus(self) -> (r: i32)
        ensures
            r == match self {
                ExitStatus::Exited(code) => code * 256,
                ExitStatus::Signaled(sig) => (sig % 128) as int,
            },
    {
        match self {
            ExitStatus::Exited(code) => {
                let c = code as i32;
                proof {
                    assert(c << 8i32 == c * 256) by (bit_vector)
                        requires
                            0 <= c < 256,
                    ;
                }
                c << 8i32
            },
            ExitStatus::Signaled(sig) => {
                let s = sig as i32;
                proof {
                    assert(s & 0x7f == s % 128) by (bit_vector)
                        requires
                            0 <= s < 256,
                    ;
                }
                s & 0x7f
            },
        }
    }
}

/// The set of signals raised and not yet delivered, one bit per signal.
#[derive(Debug, Clone, Copy)]
pub struct PendingSignals(pub u64);

/// A signal number that can be pending.
pub open spec fn valid_signal(sig: u32) -> bool {
    1 <= sig <= 31
}

impl PendingSignals {
    /// Whether signal `sig` is pending.
    pub open spec fn is_pending(&self, sig: u64) -> bool {
        bit(self.0, sig)
    }

    /// No signal pending.
    pub fn new() -> (r: Self)
        ensures
            forall|s: u64| s < 64 ==> !#[trigger] r.is_pending(s),
    {
        proof {
            assert(forall|s: u64| #![trigger bit(0u64, s)] s < 64 ==> !bit(0u64, s)) by (bit_vector);
        }
        PendingSignals(0)
    }

    /// Marks `sig` pending.
    pub fn raise(&mut self, sig: u32)
        requires
            valid_signal(sig),
        ensures
            final(self).0 == raised(old(self).0, sig),
            final(self).is_pending(sig as u64),
            forall|s: u64| s < 64 && s != sig ==> #[trigger] final(self).is_pending(s) == old(self).is_pending(s),
    {
        proof {
            lemma_set_bit(self.0, sig as u64);
        }
        self.0 = self.0 | (1u64 << sig as u64);
    }

    /// Marks `sig` no longer pending.
    pub fn clear(&mut self, sig: u32)
        requires
            valid_signal(sig),
        ensures
            final(self).0 == cleared(old(self).0, sig),
            !final(self).is_pending(sig as u64),
            forall|s: u64| s < 64 && s != sig ==> #[trigger] final(self).is_pending(s) == old(self).is_pending(s),
    {
        proof {
            lemma_clear_bit(self.0, sig as u64);
        }
        self.0 = self.0 & !(1u64 << sig as u64);
    }

    /// The lowest pending signal that `mask` does not block, if any.
    pub fn first_unblocked(&self, mask: u64) -> (r: Option<u32>)
        ensures
            r is None <==> forall|s: u64| s < 64 ==> !(#[trigger] self.is_pending(s) && !bit(mask, s)),
            r matches Some(k) ==> k < 64 && self.is_pending(k as u64) && !bit(mask, k as u64)
                && forall|j: u64| j < k ==> !(#[trigger] self.is_pending(j) && !bit(mask, j)),
    {
        let deliverable = self.0 & !mask;
        proof {
            lemma_deliverable(self.0, mask);
            vstd::std_specs::bits::axiom_u64_trailing_zeros(deliverable);
        }
        if deliverable == 0 {
            proof {
                assert forall|s: u64| s < 64 implies !(#[trigger] self.is_pending(s) && !bit(mask, s)) by {
                    assert(!bit(deliverable, s));
                }
            }
            return None;
        }
        let k = deliverable.trailing_zeros();
        proof {
            assert forall|j: u64| j < k implies !(#[trigger] self.is_pending(j) && !bit(mask, j)) by {
                assert((deliverable >> j) & 1u64 == 0u64);
                assert(!bit(deliverable, j));
            }
            assert(bit(deliverable, k as u64));
            assert(self.is_pending(k as u64) && !bit(mask, k as u64));
        }
        Some(k)
    }

    /// Whether no signal is pending.
    pub fn is_empty(&self) -> (r: bool)
        ensures
            r == (self.0 == 0),
    {
        self.0 == 0
    }
}

/// What a signal does when the process has not installed a handler.
#[derive(Debug, Clone, Copy, PartialEq, Eq, Structural)]
pub enum DefaultAction {
    Terminate,
    Ignore,
    Stop,
    Continue,
}

/// The default action of each signal (unknown signals terminate).
pub open spec fn default_action_spec(sig: u32) -> DefaultAction {
    if sig == SIGCHLD || sig == SIGURG || sig == SIGWINCH {
        DefaultAction::Ignore
    } else if sig == SIGSTOP || sig == SIGTSTP || sig == SIGTTIN || sig == SIGTTOU {
        DefaultAction::Stop
    } else if sig == SIGCONT {
        DefaultAction::Continue
    } else {
        DefaultAction::Terminate
    }
}

/// The default action of `sig`: child, urgent-data and window-change
/// notifications are ignored, the stop signals stop, `SIGCONT` continues and
/// every other signal terminates.
pub fn default_action(sig: u32) -> (r: DefaultAction)
    ensures
        r == default_action_spec(sig),
{
    if sig == SIGHUP || sig == SIGINT || sig == SIGQUIT || sig == SIGILL || sig == SIGTRAP || sig
        == SIGABRT || sig == SIGBUS || sig == SIGFPE || sig == SIGKILL || sig == SIGUSR1 || sig
        == SIGSEGV || sig == SIGUSR2 || sig == SIGPIPE || sig == SIGALRM || sig == SIGTERM || sig
        == SIGSTKFLT || sig == SIGXCPU || sig == SIGXFSZ || sig == SIGVTALRM || sig == SIGPROF
        || sig == SIGIO || sig == SIGPWR || sig == SIGSYS {
        DefaultAction::Terminate
    } else if sig == SIGCHLD || sig == SIGURG || sig == SIGWINCH {
        DefaultAction::Ignore
    } else if sig == SIGSTOP || sig == SIGTSTP || sig == SIGTTIN || sig == SIGTTOU {
        DefaultAction::Stop
    } else if sig == SIGCONT {
        DefaultAction::Continue
    } else {
        DefaultAction::Terminate
    }
}

/// The default actions by signal number: SIGCHLD (17), SIGURG (23) and
/// SIGWINCH (28) are ignored; SIGSTOP (19), SIGTSTP (20), SIGTTIN (21) and
/// SIGTTOU (22) stop the process; SIGCONT (18) continues it; every other
/// signal terminates it.
pub proof fn lemma_default_action_table(sig: u32)
    ensures
        (default_action_spec(sig) == DefaultAction::Ignore) == (sig == 17 || sig == 23 || sig == 28),
        (default_action_spec(sig) == DefaultAction::Stop) == (sig == 19 || sig == 20 || sig == 21 || sig
            == 22),
        (default_action_spec(sig) == DefaultAction::Continue) == (sig == 18),
        (default_action_spec(sig) == DefaultAction::Terminate) == !(sig == 17 || sig == 23 || sig == 28
            || sig == 19 || sig == 20 || sig == 21 || sig == 22 || sig == 18),
{
}

proof fn lemma_deliverable(bits: u64, mask: u64)
    ensures
        forall|s: u64|
            #![trigger bit(bits & !mask, s)]
            s < 64 ==> bit(bits & !mask, s) == (bit(bits, s) && !bit(mask, s)),
        (bits & !mask == 0) <==> forall|s: u64| #![trigger bit(bits & !mask, s)] s < 64 ==> !bit(bits & !mask, s),
{
    assert(forall|s: u64|
        #![trigger bit(bits & !mask, s)]
        s < 64 ==> bit(bits & !mask, s) == (bit(bits, s) && !bit(mask, s))) by (bit_vector);
    assert((bits & !mask == 0) ==> forall|s: u64| #![trigger bit(bits & !mask, s)] s < 64 ==> !bit(bits & !mask, s)) by (bit_vector);
    if forall|s: u64| #![trigger bit(bits & !mask, s)] s < 64 ==> !bit(bits & !mask, s) {
        assert(forall|s: u64| #![trigger bit(0u64, s)] s < 64 ==> !bit(0u64, s)) by (bit_vector);
        assert forall|i: u64| i < 64 implies #[trigger] bit(bits & !mask, i) == bit(0u64, i) by {}
        crate::util::lemma_bits_equal(bits & !mask, 0u64);
    }
}

/// The set after raising `sig`.
pub open spec fn raised(bits: u64, sig: u32) -> u64 {
    bits | (1u64 << sig as u64)
}

/// The set after clearing `sig`.
pub open spec fn cleared(bits: u64, sig: u32) -> u64 {
    bits & !(1u64 << sig as u64)
}

/// Clearing a signal undoes raising it: raising then clearing leaves what
/// clearing alone leaves; raising twice is raising once.
pub proof fn lemma_raise_then_clear(bits: u64, sig: u32)
    requires
        valid_signal(sig),
    ensures
        cleared(raised(bits, sig), sig) == cleared(bits, sig),
        raised(raised(bits, sig), sig) == raised(bits, sig),
        !bit(bits, sig as u64) ==> cleared(raised(bits, sig), sig) == bits,
{
    let s = sig as u64;
    assert(s < 64 ==> (bits | (1u64 << s)) & !(1u64 << s) == bits & !(1u64 << s) && ((bits | (1u64
        << s)) | (1u64 << s)) == bits | (1u64 << s) && (((bits >> s) & 1u64 != 1u64) ==> (bits | (1u64
        << s)) & !(1u64 << s) == bits)) by (bit_vector);
}

} // verus!
