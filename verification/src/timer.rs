use vstd::prelude::*;

use std::collections::BTreeMap;
use vstd::std_specs::btree::{increasing_seq, spec_keys_iter};
use vstd::std_specs::iter::IteratorSpec;

use crate::errors::Errno;
use crate::poll::PollOutcome;

verus! {

broadcast use {vstd::std_specs::btree::group_btree_axioms, vstd::laws_cmp::group_laws_cmp};

/// A duration or point in time as user space passes it.
#[allow(non_camel_case_types)]
#[derive(Clone, Copy, Debug, PartialEq, Eq, Structural)]
pub struct timespec {
    pub tv_sec: i64,
    pub tv_nsec: i64,
}

/// Clock ticks a sleep of `d` lasts at `clocks_per_nano` ticks per
/// nanosecond.
pub open spec fn sleep_clocks(d: timespec, clocks_per_nano: u64) -> int {
    d.tv_sec * (clocks_per_nano * 1000 * 1000) + d.tv_nsec * clocks_per_nano
}

/// The arithmetic of a sleep of `d` starting at `current` fits in 64 bits.
pub open spec fn sleep_fits(d: timespec, clocks_per_nano: u64, current: u64) -> bool {
    &&& clocks_per_nano * 1000 * 1000 <= u64::MAX
    &&& (d.tv_sec >= 0 && d.tv_nsec >= 0) ==> {
        &&& d.tv_sec * (clocks_per_nano * 1000 * 1000) <= u64::MAX
        &&& d.tv_nsec * clocks_per_nano <= u64::MAX
        &&& current + sleep_clocks(d, clocks_per_nano) <= u64::MAX
    }
}

/// The keys of `ks` increase strictly.
pub open spec fn strictly_increasing(ks: Seq<u64>) -> bool {
    forall|i: int, j: int| 0 <= i < j < ks.len() ==> ks[i] < ks[j]
}

/// The wake-up times before `current`.
pub open spec fn due_times<W>(m: Map<u64, W>, current: u64) -> Set<u64> {
    m.dom().filter(|k: u64| k < current)
}

/// The keys of a map of wake-up times come out of its iterator in
/// increasing order.
proof fn lemma_keys_increasing<W>(m: &BTreeMap<u64, W>)
    ensures
        forall|a: int, b: int|
            0 <= a < b < spec_keys_iter(m).remaining().len() ==> *spec_keys_iter(m).remaining()[a]
                < *spec_keys_iter(m).remaining()[b],
{
    let s = spec_keys_iter(m).remaining();
    assert(vstd::laws_cmp::obeys_cmp::<u64>());
    assert(vstd::laws_cmp::obeys_cmp::<&u64>());
    assert(increasing_seq(s));
    assert forall|a: int, b: int| 0 <= a < b < s.len() implies *s[a] < *s[b] by {
        assert(vstd::std_specs::cmp::OrdSpec::cmp_spec(&s[a], &s[b]) is Less);
    }
}

/// The keys of `m` below `bound`, in increasing order.
pub fn keys_below<V>(m: &BTreeMap<u64, V>, bound: u64) -> (r: Vec<u64>)
    ensures
        strictly_increasing(r@),
        r@.to_set() == due_times(m@, bound),
        forall|j: int| 0 <= j < r@.len() ==> #[trigger] r@[j] < bound && m@.dom().contains(r@[j]),
{
    let ghost mv = m@;
    let mut due: Vec<u64> = Vec::new();
    let ghost all = spec_keys_iter(m).remaining().unref();
    proof {
        lemma_keys_increasing(m);
        assert(all.to_set() == mv.dom());
    }
    for k in it: m.keys()
        invariant
            mv == m@,
            all == spec_keys_iter(m).remaining().unref(),
            it.seq() == spec_keys_iter(m).remaining(),
            all.len() == it.seq().len(),
            forall|a: int| 0 <= a < all.len() ==> all[a] == *it.seq()[a],
            forall|a: int, b: int| 0 <= a < b < all.len() ==> all[a] < all[b],
            all.to_set() == mv.dom(),
            strictly_increasing(due@),
            forall|j: int| 0 <= j < due@.len() ==> #[trigger] due@[j] < bound && mv.dom().contains(due@[j]),
            forall|j: int| 0 <= j < due@.len() ==> exists|a: int| 0 <= a < it.index() && all[a] == #[trigger] due@[j],
            forall|a: int| 0 <= a < it.index() && #[trigger] all[a] < bound ==> due@.contains(all[a]),
            due@.len() > 0 ==> exists|a: int| 0 <= a < it.index() && all[a] == due@.last(),
    {
        let key = *k;
        let ghost before = due@;
        if key < bound {
            due.push(key);
            proof {
                assert(due@[due@.len() - 1] == key);
                assert forall|x: u64| before.contains(x) implies due@.contains(x) by {
                    let j = choose|j: int| 0 <= j < before.len() && before[j] == x;
                    assert(due@[j] == x);
                }
            }
        }
    }
    proof {
        let ks = due@;
        assert(ks.to_set() =~= due_times(mv, bound)) by {
            assert forall|k: u64| ks.to_set().contains(k) implies due_times(mv, bound).contains(k) by {
                let j = choose|j: int| 0 <= j < ks.len() && ks[j] == k;
                assert(ks[j] < bound);
            }
            assert forall|k: u64| due_times(mv, bound).contains(k) implies ks.to_set().contains(k) by {
                assert(all.to_set().contains(k));
                let a = choose|a: int| 0 <= a < all.len() && all[a] == k;
                assert(all[a] < bound);
            }
        }
    }
    due
}

/// Splitting a map at a key.
pub trait SplitOffLowerThan<V>: Sized {
    /// The entries.
    spec fn entries(&self) -> Map<u64, V>;

    /// Removes the entries whose key is below `key` and returns them.
    fn split_off_lower_than(&mut self, key: u64) -> (r: Self)
        ensures
            r.entries() == old(self).entries().restrict(old(self).entries().dom().filter(|k: u64| k < key)),
            final(self).entries() == old(self).entries().restrict(
                old(self).entries().dom().filter(|k: u64| k >= key),
            ),
    ;
}

impl<V> SplitOffLowerThan<V> for BTreeMap<u64, V> {
    open spec fn entries(&self) -> Map<u64, V> {
        self@
    }

    fn split_off_lower_than(&mut self, key: u64) -> (r: Self) {
        let ghost m = self@;
        let keys = keys_below(self, key);
        let ghost ks = keys@;
        let mut lower: BTreeMap<u64, V> = BTreeMap::new();
        let mut i: usize = 0;
        while i < keys.len()
            invariant
                ks == keys@,
                strictly_increasing(ks),
                ks.to_set() == due_times(m, key),
                forall|j: int| 0 <= j < ks.len() ==> #[trigger] ks[j] < key && m.dom().contains(ks[j]),
                i <= ks.len(),
                self@ == m.remove_keys(ks.take(i as int).to_set()),
                lower@ == m.restrict(ks.take(i as int).to_set()),
            decreases ks.len() - i,
        {
            let k = keys[i];
            proof {
                assert(!ks.take(i as int).contains(k)) by {
                    if ks.take(i as int).contains(k) {
                        let j = choose|j: int| 0 <= j < i && ks.take(i as int)[j] == k;
                        assert(ks[j] < ks[i as int]);
                    }
                }
                assert(ks.take(i + 1).to_set() =~= ks.take(i as int).to_set().insert(k)) by {
                    assert(ks.take(i + 1) =~= ks.take(i as int) + seq![k]);
                    Seq::lemma_to_set_insert_commutes(ks.take(i as int), k);
                }
            }
            match self.remove(&k) {
                Some(v) => {
                    lower.insert(k, v);
                },
                None => {
                    proof {
                        assert(false);
                    }
                },
            }
            proof {
                assert(self@ =~= m.remove_keys(ks.take(i + 1).to_set()));
                assert(lower@ =~= m.restrict(ks.take(i + 1).to_set()));
            }
            i = i + 1;
        }
        proof {
            assert(ks.take(ks.len() as int) =~= ks);
            assert(self@ =~= m.restrict(m.dom().filter(|k: u64| k >= key)));
            assert(lower@ =~= m.restrict(m.dom().filter(|k: u64| k < key)));
        }
        lower
    }
}

/// A pending sleep: when it ends and whether its waker is queued.
#[derive(Clone, Copy, Debug, PartialEq, Eq, Structural)]
pub struct Sleep {
    pub wakeup_time: u64,
    pub registered: bool,
}

impl Sleep {
    /// A sleep ending at `wakeup_time`, not yet queued.
    pub fn new(wakeup_time: u64) -> (r: Self)
        ensures
            r.wakeup_time == wakeup_time,
            !r.registered,
    {
        Sleep { wakeup_time, registered: false }
    }

    /// Ready once the clock reached the wake-up time; otherwise queues
    /// `waker` for that time, the first time only.
    pub fn poll<W>(&mut self, timer: &mut Timer<W>, current: u64, waker: W) -> (r: PollOutcome<()>)
        ensures
            current >= old(self).wakeup_time ==> r == PollOutcome::<()>::Ready(()) && *final(self)
                == *old(self) && final(timer)@ == old(timer)@,
            current < old(self).wakeup_time ==> r == PollOutcome::<()>::Pending && final(self).wakeup_time
                == old(self).wakeup_time && final(self).registered && final(timer)@ == if old(
                self).registered {
                old(timer)@
            } else {
                old(timer)@.insert(old(self).wakeup_time, waker)
            },
            final(timer).clocks() == old(timer).clocks(),
    {
        if current >= self.wakeup_time {
            return PollOutcome::Ready(());
        }
        if !self.registered {
            timer.wakeup_queue.insert(self.wakeup_time, waker);
            self.registered = true;
        }
        PollOutcome::Pending
    }
}

/// The clock and the queue of wakers by wake-up time.
pub struct Timer<W> {
    clocks_per_nano: u64,
    wakeup_queue: BTreeMap<u64, W>,
}

impl<W> View for Timer<W> {
    type V = Map<u64, W>;

    closed spec fn view(&self) -> Map<u64, W> {
        self.wakeup_queue@
    }
}

impl<W> Timer<W> {
    /// Clock ticks per nanosecond.
    pub closed spec fn clocks(&self) -> u64 {
        self.clocks_per_nano
    }

    /// A timer with no waker and no clock rate yet.
    pub fn new() -> (r: Self)
        ensures
            r@ == Map::<u64, W>::empty(),
            r.clocks() == 0,
    {
        Timer { clocks_per_nano: 0, wakeup_queue: BTreeMap::new() }
    }

    /// Sets the clock rate from the frequency of the time base.
    pub fn init(&mut self, clocks_per_sec: u64)
        ensures
            final(self).clocks() == clocks_per_sec / 1000 / 1000,
            final(self)@ == old(self)@,
    {
        self.clocks_per_nano = clocks_per_sec / 1000 / 1000;
    }

    /// A sleep of `duration` from `current`; negative durations are invalid.
    pub fn sleep(&self, duration: &timespec, current: u64) -> (r: Result<Sleep, Errno>)
        requires
            sleep_fits(*duration, self.clocks(), current),
        ensures
            (duration.tv_sec < 0 || duration.tv_nsec < 0) ==> r == Err::<Sleep, Errno>(Errno::EINVAL),
            (duration.tv_sec >= 0 && duration.tv_nsec >= 0) ==> r == Ok::<Sleep, Errno>(
                Sleep {
                    wakeup_time: (current + sleep_clocks(*duration, self.clocks())) as u64,
                    registered: false,
                },
            ),
    {
        let clocks_per_nano = self.clocks_per_nano;
        let clocks_per_second = clocks_per_nano * 1000 * 1000;
        if duration.tv_sec < 0 || duration.tv_nsec < 0 {
            return Err(Errno::EINVAL);
        }
        let secs = duration.tv_sec as u64;
        let nanos = duration.tv_nsec as u64;
        let clocks = secs * clocks_per_second + nanos * clocks_per_nano;
        let wakeup_time = current + clocks;
        Ok(Sleep::new(wakeup_time))
    }

    /// Removes the wakers whose time is before `current` and returns them,
    /// earliest first.
    pub fn wakeup_wakers(&mut self, current: u64) -> (r: Vec<W>)
        ensures
            final(self).clocks() == old(self).clocks(),
            final(self)@ == old(self)@.restrict(old(self)@.dom().filter(|k: u64| k >= current)),
            exists|ks: Seq<u64>|
                #![trigger ks.to_set()]
                strictly_increasing(ks) && ks.to_set() == due_times(old(self)@, current) && r@ == ks.map_values(
                    |k: u64| old(self)@[k],
                ),
    {
        let ghost m = self.wakeup_queue@;
        let due = keys_below(&self.wakeup_queue, current);
        let ghost ks = due@;
        let mut out: Vec<W> = Vec::new();
        let mut i: usize = 0;
        while i < due.len()
            invariant
                ks == due@,
                strictly_increasing(ks),
                forall|j: int| 0 <= j < ks.len() ==> #[trigger] ks[j] < current && m.dom().contains(ks[j]),
                i <= ks.len(),
                out@ == ks.take(i as int).map_values(|k: u64| m[k]),
                self.wakeup_queue@ == m.remove_keys(ks.take(i as int).to_set()),
                self.clocks_per_nano == old(self).clocks_per_nano,
            decreases ks.len() - i,
        {
            let key = due[i];
            let w = self.wakeup_queue.remove(&key);
            proof {
                assert(!ks.take(i as int).contains(key)) by {
                    if ks.take(i as int).contains(key) {
                        let j = choose|j: int| 0 <= j < i && ks.take(i as int)[j] == key;
                        assert(ks[j] < ks[i as int]);
                    }
                }
                assert(ks.take(i + 1).to_set() =~= ks.take(i as int).to_set().insert(key)) by {
                    assert(ks.take(i + 1) =~= ks.take(i as int) + seq![key]);
                    Seq::lemma_to_set_insert_commutes(ks.take(i as int), key);
                }
            }
            match w {
                Some(v) => {
                    out.push(v);
                },
                None => {
                    proof {
                        assert(false);
                    }
                },
            }
            proof {
                assert(ks.take(i + 1).map_values(|k: u64| m[k]) =~= ks.take(i as int).map_values(
                    |k: u64| m[k],
                ).push(m[key]));
                assert(self.wakeup_queue@ =~= m.remove_keys(ks.take(i + 1).to_set()));
            }
            i = i + 1;
        }
        proof {
            assert(ks.take(ks.len() as int) =~= ks);
            assert(self.wakeup_queue@ =~= m.restrict(m.dom().filter(|k: u64| k >= current)));
        }
        out
    }

    /// The clock value `milliseconds` from `current`, wrapping around.
    pub fn set_timer(&self, current: u64, milliseconds: u64) -> (r: u64)
        requires
            self.clocks() * 1000 <= u64::MAX,
            self.clocks() * 1000 * milliseconds <= u64::MAX,
        ensures
            r == (current + self.clocks() * 1000 * milliseconds) % 0x1_0000_0000_0000_0000,
    {
        current.wrapping_add(self.clocks_per_nano * 1000 * milliseconds)
    }
}

} // verus!
