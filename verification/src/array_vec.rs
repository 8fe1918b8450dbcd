use vstd::prelude::*;

verus! {

/// A vector that never holds more than `N` elements; pushing onto a full
/// one is refused.
pub struct ArrayVec<T, const N: usize> {
    data: Vec<T>,
}

/// The first `n` elements of `s`, or all of them when there are fewer.
pub open spec fn truncated<T>(s: Seq<T>, n: nat) -> Seq<T> {
    if s.len() <= n {
        s
    } else {
        s.take(n as int)
    }
}

/// Pushing onto a buffer that holds the truncation of `s` leaves the
/// truncation of `s.push(b)`, whether or not the buffer was full.
pub proof fn lemma_truncated_push<T>(held: Seq<T>, s: Seq<T>, b: T, n: nat)
    requires
        held == truncated(s, n),
    ensures
        held.len() < n ==> held.push(b) == truncated(s.push(b), n),
        held.len() >= n ==> held == truncated(s.push(b), n),
{
    if held.len() < n {
        assert(held.push(b) =~= truncated(s.push(b), n));
    } else {
        assert(held =~= truncated(s.push(b), n));
    }
}

impl<T, const N: usize> ArrayVec<T, N> {
    /// The elements, oldest first.
    pub closed spec fn view(&self) -> Seq<T> {
        self.data@
    }

    /// The empty vector.
    pub fn new() -> (r: Self)
        ensures
            r@ == Seq::<T>::empty(),
    {
        ArrayVec { data: Vec::new() }
    }

    /// Appends `value` unless `N` elements are held already.
    pub fn push(&mut self, value: T) -> (r: Result<(), T>)
        ensures
            old(self)@.len() < N ==> r is Ok && final(self)@ == old(self)@.push(value),
            old(self)@.len() >= N ==> r is Err && final(self)@ == old(self)@,
    {
        if self.data.len() < N {
            self.data.push(value);
            Ok(())
        } else {
            Err(value)
        }
    }

    /// Number of elements held.
    pub fn len(&self) -> (r: usize)
        ensures
            r == self@.len(),
    {
        self.data.len()
    }

    /// Whether nothing is held.
    pub fn is_empty(&self) -> (r: bool)
        ensures
            r == (self@.len() == 0),
    {
        self.data.len() == 0
    }

    /// The elements as a slice.
    pub fn as_slice(&self) -> (r: &[T])
        ensures
            r@ == self@,
    {
        self.data.as_slice()
    }
}

} // verus!
