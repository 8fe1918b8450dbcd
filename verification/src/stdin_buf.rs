use vstd::prelude::*;

use std::collections::VecDeque;

use crate::poll::PollOutcome;

verus! {

/// The smaller of two numbers.
pub open spec fn min_nat(a: nat, b: nat) -> nat {
    if a <= b {
        a
    } else {
        b
    }
}

/// Removes and returns the first `count` bytes of `queue` (all of them when
/// there are fewer).
pub fn drain_front(queue: &mut VecDeque<u8>, count: usize) -> (r: Vec<u8>)
    ensures
        r@ == old(queue)@.take(min_nat(old(queue)@.len(), count as nat) as int),
        final(queue)@ == old(queue)@.skip(min_nat(old(queue)@.len(), count as nat) as int),
{
    let actual_count = if queue.len() < count {
        queue.len()
    } else {
        count
    };
    let ghost q0 = queue@;
    let mut out: Vec<u8> = Vec::new();
    let mut i: usize = 0;
    while i < actual_count
        invariant
            actual_count <= q0.len(),
            i <= actual_count,
            out@ == q0.take(i as int),
            queue@ == q0.skip(i as int),
        decreases actual_count - i,
    {
        let b = queue.pop_front();
        match b {
            Some(x) => {
                out.push(x);
            },
            None => {},
        }
        proof {
            assert(q0.take(i + 1) =~= q0.take(i as int).push(q0[i as int]));
            assert(q0.skip(i + 1) =~= q0.skip(i as int).subrange(1, q0.skip(i as int).len() as int));
        }
        i = i + 1;
    }
    out
}

/// Removes every waiter from `queue`, last registered first.
pub fn take_all_waiters<W>(queue: &mut Vec<W>) -> (r: Vec<W>)
    ensures
        r@ == old(queue)@.reverse(),
        final(queue)@ == Seq::<W>::empty(),
{
    let ghost q0 = queue@;
    let mut woken: Vec<W> = Vec::new();
    while queue.len() > 0
        invariant
            q0.len() == queue@.len() + woken@.len(),
            queue@ == q0.take(queue@.len() as int),
            woken@ == q0.skip(queue@.len() as int).reverse(),
        decreases queue@.len(),
    {
        let ghost n = queue@.len();
        let w = queue.pop();
        match w {
            Some(w) => {
                woken.push(w);
            },
            None => {},
        }
        proof {
            assert(q0.skip(n - 1).reverse() =~= q0.skip(n as int).reverse().push(q0[n - 1]));
            assert(q0.take(n - 1) =~= q0.take(n as int).take(n - 1));
        }
    }
    proof {
        assert(q0.skip(0) =~= q0);
    }
    woken
}

/// Bytes typed on the console that nobody has read yet, and the readers
/// waiting for them.
pub struct StdinBuffer<W> {
    data: VecDeque<u8>,
    wakeup_queue: Vec<W>,
}

impl<W> StdinBuffer<W> {
    /// The bytes not read yet, oldest first.
    pub closed spec fn bytes(&self) -> Seq<u8> {
        self.data@
    }

    /// The readers waiting for input, in the order they registered.
    pub closed spec fn waiters(&self) -> Seq<W> {
        self.wakeup_queue@
    }

    /// An empty buffer with nobody waiting.
    pub fn new() -> (r: Self)
        ensures
            r.bytes() == Seq::<u8>::empty(),
            r.waiters() == Seq::<W>::empty(),
    {
        StdinBuffer { data: VecDeque::new(), wakeup_queue: Vec::new() }
    }

    /// Registers a reader to be woken by the next byte.
    pub fn register_wakeup(&mut self, waker: W)
        ensures
            final(self).bytes() == old(self).bytes(),
            final(self).waiters() == old(self).waiters().push(waker),
    {
        self.wakeup_queue.push(waker);
    }

    /// Appends a byte; every waiting reader is handed back to be woken, the
    /// last registered first.
    pub fn push(&mut self, byte: u8) -> (woken: Vec<W>)
        ensures
            final(self).bytes() == old(self).bytes().push(byte),
            final(self).waiters() == Seq::<W>::empty(),
            woken@ == old(self).waiters().reverse(),
    {
        self.data.push_back(byte);
        take_all_waiters(&mut self.wakeup_queue)
    }

    /// Removes the oldest byte.
    pub fn pop(&mut self) -> (r: Option<u8>)
        ensures
            final(self).waiters() == old(self).waiters(),
            old(self).bytes().len() == 0 ==> r is None && final(self).bytes() == old(self).bytes(),
            old(self).bytes().len() > 0 ==> r == Some(old(self).bytes()[0]) && final(self).bytes()
                == old(self).bytes().drop_first(),
    {
        let r = self.data.pop_front();
        proof {
            if old(self).bytes().len() > 0 {
                assert(self.data@ =~= old(self).bytes().drop_first());
            }
        }
        r
    }

    /// Removes and returns up to `count` of the oldest bytes.
    pub fn get(&mut self, count: usize) -> (r: Vec<u8>)
        ensures
            final(self).waiters() == old(self).waiters(),
            r@ == old(self).bytes().take(min_nat(old(self).bytes().len(), count as nat) as int),
            final(self).bytes() == old(self).bytes().skip(
                min_nat(old(self).bytes().len(), count as nat) as int,
            ),
    {
        drain_front(&mut self.data, count)
    }

    /// Whether no byte is waiting.
    pub fn is_empty(&self) -> (r: bool)
        ensures
            r == (self.bytes().len() == 0),
    {
        self.data.len() == 0
    }
}

/// A read from the console that waits until at least one byte is there.
pub struct ReadStdin {
    pub max_count: usize,
    pub is_registered: bool,
}

impl ReadStdin {
    /// A read of at most `max_count` bytes that has not waited yet.
    pub fn new(max_count: usize) -> (r: Self)
        ensures
            r.max_count == max_count,
            !r.is_registered,
    {
        ReadStdin { max_count, is_registered: false }
    }

    /// One attempt: the available bytes (up to the maximum) when there are
    /// any; otherwise `waker` is registered, once, and the read stays pending.
    pub fn poll<W>(&mut self, stdin: &mut StdinBuffer<W>, waker: W) -> (r: PollOutcome<Vec<u8>>)
        ensures
            final(self).max_count == old(self).max_count,
            old(stdin).bytes().len() > 0 ==> {
                &&& r matches PollOutcome::Ready(data)
                &&& data@ == old(stdin).bytes().take(
                    min_nat(old(stdin).bytes().len(), old(self).max_count as nat) as int,
                )
                &&& final(stdin).bytes() == old(stdin).bytes().skip(
                    min_nat(old(stdin).bytes().len(), old(self).max_count as nat) as int,
                )
                &&& final(stdin).waiters() == old(stdin).waiters()
                &&& final(self).is_registered == old(self).is_registered
            },
            old(stdin).bytes().len() == 0 ==> {
                &&& r is Pending
                &&& final(stdin).bytes() == old(stdin).bytes()
                &&& final(self).is_registered
                &&& final(stdin).waiters() == if old(self).is_registered {
                    old(stdin).waiters()
                } else {
                    old(stdin).waiters().push(waker)
                }
            },
    {
        if !stdin.is_empty() {
            return PollOutcome::Ready(stdin.get(self.max_count));
        }
        if !self.is_registered {
            stdin.register_wakeup(waker);
            self.is_registered = true;
        }
        PollOutcome::Pending
    }
}

} // verus!
