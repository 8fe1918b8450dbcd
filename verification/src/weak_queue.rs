use vstd::prelude::*;

use std::collections::VecDeque;

verus! {

/// The references of `refs` whose entry in `alive` is set, in order.
pub open spec fn kept<W>(refs: Seq<W>, alive: Seq<bool>) -> Seq<W>
    decreases refs.len(),
{
    if refs.len() == 0 {
        Seq::empty()
    } else {
        let rest = kept(refs.drop_last(), alive.drop_last());
        if alive.last() {
            rest.push(refs.last())
        } else {
            rest
        }
    }
}

/// The positions whose entry in `alive` is set, in increasing order.
pub open spec fn alive_positions_spec(alive: Seq<bool>) -> Seq<usize>
    decreases alive.len(),
{
    if alive.len() == 0 {
        Seq::empty()
    } else {
        let rest = alive_positions_spec(alive.drop_last());
        if alive.last() {
            rest.push((alive.len() - 1) as usize)
        } else {
            rest
        }
    }
}

/// A queue of weak references (of type `W`).  Walking it tries to upgrade
/// each reference; those that are still alive are kept, the others dropped.
pub struct WeakQueue<W> {
    queue: VecDeque<W>,
}

impl<W> WeakQueue<W> {
    /// The references, first to try first.
    pub closed spec fn refs(&self) -> Seq<W> {
        self.queue@
    }

    /// An empty queue.
    pub fn new() -> (r: Self)
        ensures
            r.refs() == Seq::<W>::empty(),
    {
        WeakQueue { queue: VecDeque::new() }
    }

    /// Adds a reference at the back.
    pub fn add(&mut self, reference: W)
        ensures
            final(self).refs() == old(self).refs().push(reference),
    {
        self.queue.push_back(reference);
    }

    /// The number of references.
    pub fn len(&self) -> (r: usize)
        ensures
            r == self.refs().len(),
    {
        self.queue.len()
    }

    /// Whether there is no reference.
    pub fn is_empty(&self) -> (r: bool)
        ensures
            r == (self.refs().len() == 0),
    {
        self.len() == 0
    }

    /// Starts a walk that tries each reference once and keeps those alive.
    pub fn iter(&self) -> (r: Iter)
        ensures
            r.left() == self.refs().len(),
    {
        Iter { left: self.queue.len() }
    }

    /// Starts a walk that looks at each reference in order without changing
    /// the queue.
    pub fn readonly_iter(&self) -> (r: ReadonlyIter)
        ensures
            r.position() == 0,
    {
        ReadonlyIter { position: 0 }
    }

    /// A whole walk with `iter`, given for each reference, in order, whether
    /// it still upgrades: the dead references are dropped, the live ones kept
    /// in their order, and the positions of the live ones (whose upgrades the
    /// walk yields) are returned in order.
    pub fn retain_alive(&mut self, alive: &[bool]) -> (r: Vec<usize>)
        requires
            alive@.len() == old(self).refs().len(),
        ensures
            final(self).refs() == kept(old(self).refs(), alive@),
            r@ == alive_positions_spec(alive@),
    {
        let ghost refs = self.queue@;
        let n = self.queue.len();
        let mut out: Vec<usize> = Vec::new();
        let mut i: usize = 0;
        proof {
            assert(refs.take(0) =~= Seq::<W>::empty());
            assert(alive@.take(0) =~= Seq::<bool>::empty());
            assert(refs.skip(0) =~= refs);
            assert(self.queue@ =~= refs.skip(0) + kept(refs.take(0), alive@.take(0)));
        }
        while i < n
            invariant
                n == refs.len(),
                alive@.len() == n,
                i <= n,
                self.queue@ == refs.skip(i as int) + kept(refs.take(i as int), alive@.take(i as int)),
                out@ == alive_positions_spec(alive@.take(i as int)),
            decreases n - i,
        {
            let ghost before = self.queue@;
            proof {
                assert(before.len() > 0) by {
                    assert(refs.skip(i as int).len() > 0);
                }
            }
            let reference = match self.queue.pop_front() {
                Some(r) => r,
                None => {
                    proof {
                        assert(false);
                    }
                    return out;
                },
            };
            proof {
                assert(reference == refs[i as int]);
                assert(self.queue@ =~= refs.skip(i + 1) + kept(refs.take(i as int), alive@.take(i as int)));
                assert(refs.take(i + 1).drop_last() =~= refs.take(i as int));
                assert(alive@.take(i + 1).drop_last() =~= alive@.take(i as int));
                assert(refs.take(i + 1).last() == refs[i as int]);
                assert(alive@.take(i + 1).last() == alive@[i as int]);
            }
            if alive[i] {
                self.queue.push_back(reference);
                out.push(i);
                proof {
                    assert(self.queue@ =~= refs.skip(i + 1) + kept(refs.take(i + 1), alive@.take(i + 1)));
                }
            } else {
                proof {
                    assert(self.queue@ =~= refs.skip(i + 1) + kept(refs.take(i + 1), alive@.take(i + 1)));
                }
            }
            i = i + 1;
        }
        proof {
            assert(refs.take(n as int) =~= refs);
            assert(alive@.take(n as int) =~= alive@);
            assert(refs.skip(n as int) =~= Seq::<W>::empty());
            assert(self.queue@ =~= kept(refs, alive@));
        }
        out
    }

    /// A whole walk with `readonly_iter`, given for each reference, in
    /// order, whether it still upgrades: the positions of the live ones
    /// (whose upgrades the walk yields), in order; the queue is left as it is.
    pub fn alive_positions(&self, alive: &[bool]) -> (r: Vec<usize>)
        requires
            alive@.len() == self.refs().len(),
        ensures
            r@ == alive_positions_spec(alive@),
    {
        let n = alive.len();
        let mut out: Vec<usize> = Vec::new();
        let mut i: usize = 0;
        proof {
            assert(alive@.take(0) =~= Seq::<bool>::empty());
        }
        while i < n
            invariant
                n == alive@.len(),
                i <= n,
                out@ == alive_positions_spec(alive@.take(i as int)),
            decreases n - i,
        {
            proof {
                assert(alive@.take(i + 1).drop_last() =~= alive@.take(i as int));
                assert(alive@.take(i + 1).last() == alive@[i as int]);
            }
            if alive[i] {
                out.push(i);
            }
            i = i + 1;
        }
        proof {
            assert(alive@.take(n as int) =~= alive@);
        }
        out
    }
}

/// A walk over a weak queue that drops the dead references: how many are
/// left to try.
pub struct Iter {
    left: usize,
}

impl Iter {
    /// References left to try.
    pub closed spec fn left(&self) -> usize {
        self.left
    }

    /// The next reference to try, taken off the front of the queue, or `None`
    /// when every reference was tried.  The caller upgrades it and, when it is
    /// still alive, hands it back with `keep`.
    pub fn next<W>(&mut self, queue: &mut WeakQueue<W>) -> (r: Option<W>)
        ensures
            (old(self).left() == 0 || old(queue).refs().len() == 0) ==> r is None && final(queue).refs()
                == old(queue).refs() && final(self).left() == old(self).left(),
            (old(self).left() > 0 && old(queue).refs().len() > 0) ==> r == Some(old(queue).refs()[0])
                && final(queue).refs() == old(queue).refs().drop_first() && final(self).left() == old(
                self).left() - 1,
    {
        if self.left == 0 {
            return None;
        }
        match queue.queue.pop_front() {
            Some(reference) => {
                self.left = self.left - 1;
                Some(reference)
            },
            None => None,
        }
    }

    /// Puts a reference that is still alive back at the end of the queue.
    pub fn keep<W>(&self, queue: &mut WeakQueue<W>, reference: W)
        ensures
            final(queue).refs() == old(queue).refs().push(reference),
    {
        queue.add(reference);
    }
}

/// A walk over a weak queue that leaves it as it is: the position reached.
pub struct ReadonlyIter {
    position: usize,
}

impl ReadonlyIter {
    /// The position of the next reference to look at.
    pub closed spec fn position(&self) -> usize {
        self.position
    }

    /// The next reference to look at, or `None` at the end.  The caller
    /// upgrades it and goes on with the next one when it is dead.
    pub fn next<'a, W>(&mut self, queue: &'a WeakQueue<W>) -> (r: Option<&'a W>)
        ensures
            old(self).position() < queue.refs().len() ==> r == Some(&queue.refs()[old(self).position() as int])
                && final(self).position() == old(self).position() + 1,
            old(self).position() >= queue.refs().len() ==> r is None && final(self).position() == old(
                self).position(),
    {
        if self.position < queue.queue.len() {
            let r = &queue.queue[self.position];
            self.position = self.position + 1;
            Some(r)
        } else {
            None
        }
    }
}

} // verus!
