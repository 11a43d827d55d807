//! The timer scheduler: which timer fires next, how long to wait for it, and
//! when it is due again.
//!
//! Due times live on the steady clock, in nanoseconds. A timer that has fired
//! is due again at the next multiple of its period on the wall clock, counted
//! from the epoch, so that a slow command or a late wake-up delays one firing
//! and never shifts the ones after it.

use crate::heap::Entry;
use crate::heap::TimerHeap;
use crate::timer::Timer;
use crate::timer::TimerSet;
use vstd::arithmetic::div_mod::lemma_fundamental_div_mod;
use vstd::arithmetic::div_mod::lemma_fundamental_div_mod_converse;
use vstd::arithmetic::div_mod::lemma_mod_bound;
use vstd::arithmetic::div_mod::lemma_mod_multiples_basic;
use vstd::arithmetic::mul::lemma_mul_is_commutative;
use vstd::arithmetic::mul::lemma_mul_is_distributive_add_other_way;
use vstd::multiset::Multiset;
use vstd::prelude::*;
use vstd::seq_lib::to_multiset_update;

verus! {

/// Nanoseconds in one second.
pub const NANOS_PER_SEC: i64 = 1_000_000_000;

/// A reading of the wall clock: seconds and nanoseconds since the epoch.
#[derive(Clone, Copy, Debug)]
pub struct Timespec {
    pub sec: i64,
    pub nsec: i32,
}

impl Timespec {
    /// The reading in nanoseconds since the epoch.
    pub open spec fn nanos(self) -> int {
        self.sec * NANOS_PER_SEC + self.nsec
    }

    /// The reading in nanoseconds since the epoch.
    pub fn to_nanos(&self) -> (n: i128)
        ensures
            n == self.nanos(),
    {
        (self.sec as i128) * 1_000_000_000i128 + (self.nsec as i128)
    }
}

/// The smallest multiple of `period` that is strictly greater than `t`.
pub open spec fn next_boundary(t: int, period: int) -> int {
    (t / period + 1) * period
}

/// How long a timer due at `due` has to wait when the steady clock reads
/// `now`: nothing if it is already due.
pub open spec fn wait_for(due: int, now: int) -> int {
    if due > now {
        due - now
    } else {
        0
    }
}

/// The largest due time that can be represented.
pub open spec fn clamp_due(t: int) -> int {
    if t > u64::MAX {
        u64::MAX as int
    } else {
        t
    }
}

/// The next due time of a timer that was due at `due` and is taken up when
/// the steady clock reads `now` and the wall clock reads `wall` nanoseconds.
///
/// The timer fires once it has waited until `due`. Its next due time is the
/// steady-clock equivalent of the first multiple of `period` on the wall
/// clock that lies strictly after that firing.
pub open spec fn next_due(due: int, now: int, wall: int, period: int) -> int {
    let wait = wait_for(due, now);
    clamp_due(now + wait + (next_boundary(wall + wait, period) - (wall + wait)))
}

/// A boundary is a multiple of the period, lies strictly after `t` and at
/// most one period after it.
pub proof fn lemma_next_boundary(t: int, period: int)
    requires
        period > 0,
    ensures
        next_boundary(t, period) % period == 0,
        t < next_boundary(t, period) <= t + period,
{
    let q = t / period;
    lemma_fundamental_div_mod(t, period);
    lemma_mod_bound(t, period);
    lemma_mod_multiples_basic(q + 1, period);
    lemma_mul_is_commutative(period, q);
    lemma_mul_is_distributive_add_other_way(period, q, 1);
}

/// A boundary is the least multiple of the period that lies strictly after
/// `t`: any other such multiple is at least as large.
pub proof fn lemma_boundary_is_least(t: int, period: int, multiple: int)
    requires
        period > 0,
        multiple % period == 0,
        multiple > t,
    ensures
        multiple >= next_boundary(t, period),
{
    let q = t / period;
    let k = multiple / period;
    lemma_fundamental_div_mod(t, period);
    lemma_fundamental_div_mod(multiple, period);
    lemma_mod_bound(t, period);
    lemma_mul_is_commutative(period, q);
    lemma_mul_is_commutative(period, k);
    lemma_mul_is_distributive_add_other_way(period, q, 1);
    if k <= q {
        assert(k * period <= q * period) by (nonlinear_arith)
            requires
                k <= q,
                period > 0,
        ;
    } else {
        assert(k * period >= (q + 1) * period) by (nonlinear_arith)
            requires
                k >= q + 1,
                period > 0,
        ;
    }
}

/// Bounded drift: a firing that was scheduled on a boundary and runs late by
/// less than one period is followed by the very next boundary, exactly one
/// period after the one it was scheduled on.
pub proof fn lemma_bounded_drift(boundary: int, delay: int, period: int)
    requires
        period > 0,
        boundary % period == 0,
        0 <= delay < period,
    ensures
        next_boundary(boundary + delay, period) == boundary + period,
{
    let q = boundary / period;
    lemma_fundamental_div_mod(boundary, period);
    lemma_mul_is_commutative(period, q);
    lemma_fundamental_div_mod_converse(boundary + delay, period, q, delay);
    lemma_mul_is_distributive_add_other_way(period, q, 1);
}

/// A firing that runs late by any amount is followed by a boundary a whole
/// number of periods, and at least one, after the one it was scheduled on:
/// intervals that were overrun are skipped, the alignment is kept.
pub proof fn lemma_overrun_keeps_alignment(boundary: int, delay: int, period: int)
    requires
        period > 0,
        boundary % period == 0,
        0 <= delay,
    ensures
        (next_boundary(boundary + delay, period) - boundary) % period == 0,
        next_boundary(boundary + delay, period) - boundary >= period,
        next_boundary(boundary + delay, period) - boundary == next_boundary(delay, period),
{
    let q = boundary / period;
    let d = delay / period;
    lemma_fundamental_div_mod(boundary, period);
    lemma_fundamental_div_mod(delay, period);
    lemma_mod_bound(delay, period);
    lemma_mul_is_commutative(period, q);
    lemma_mul_is_commutative(period, d);
    lemma_mul_is_distributive_add_other_way(period, q, d);
    lemma_fundamental_div_mod_converse(boundary + delay, period, q + d, delay % period);
    lemma_mul_is_distributive_add_other_way(period, q + d, 1);
    lemma_mul_is_distributive_add_other_way(period, d, 1);
    lemma_mod_multiples_basic(d + 1, period);
    lemma_next_boundary(delay, period);
}

/// A timer is due again strictly after it fires and at most one period after
/// that, unless the due time is the largest that can be represented. One
/// that is taken up before it is due is due again at most one period after
/// the time at which it was due.
pub proof fn lemma_due_again_within_a_period(due: int, now: int, wall: int, period: int)
    requires
        period > 0,
        0 <= due <= u64::MAX,
        0 <= now <= u64::MAX,
    ensures
        next_due(due, now, wall, period) <= now + wait_for(due, now) + period,
        next_due(due, now, wall, period) > now + wait_for(due, now) || next_due(
            due,
            now,
            wall,
            period,
        ) == u64::MAX,
        due >= now ==> next_due(due, now, wall, period) <= due + period,
        0 <= next_due(due, now, wall, period) <= u64::MAX,
{
    lemma_next_boundary(wall + wait_for(due, now), period);
}

/// Alignment: while the wall clock runs `offset` ahead of the steady clock,
/// a timer that has fired is due again on a boundary of the wall clock,
/// whenever it was due and whenever it is taken up.
pub proof fn lemma_due_on_a_boundary(due: int, now: int, offset: int, period: int)
    requires
        period > 0,
        next_due(due, now, now + offset, period) < u64::MAX,
    ensures
        (next_due(due, now, now + offset, period) + offset) % period == 0,
{
    lemma_next_boundary(now + offset + wait_for(due, now), period);
}

/// Rhythm: while the wall clock runs `offset` ahead of the steady clock, a
/// timer that is due on a boundary and is taken up less than one period
/// after it is due again exactly one period later. So the firings of a timer
/// are one period apart, however long its command runs within the period.
pub proof fn lemma_steady_rhythm(due: int, now: int, offset: int, period: int)
    requires
        period > 0,
        (due + offset) % period == 0,
        now < due + period,
        due + period <= u64::MAX,
    ensures
        next_due(due, now, now + offset, period) == due + period,
{
    let fire = now + wait_for(due, now);
    lemma_bounded_drift(due + offset, fire - due, period);
}

/// Nanoseconds from `t` to the next boundary of `period` after it.
pub fn until_boundary(t: i128, period: i128) -> (d: i128)
    requires
        period > 0,
    ensures
        d == next_boundary(t as int, period as int) - t,
        0 < d <= period,
{
    let r: i128 = t % period;
    proof {
        let p = period as int;
        lemma_next_boundary(t as int, p);
        lemma_fundamental_div_mod(t as int, p);
        lemma_mod_bound(t as int, p);
        lemma_mul_is_commutative(p, t as int / p);
        lemma_mul_is_distributive_add_other_way(p, t as int / p, 1);
        if t < 0 {
            let m = (-t) % p;
            let q = (-t) / p;
            lemma_fundamental_div_mod(-t, p);
            lemma_mod_bound(-t, p);
            lemma_mul_is_commutative(p, q);
            if m == 0 {
                assert(t == (-q) * p + 0) by (nonlinear_arith)
                    requires
                        -t == q * p + m,
                        m == 0,
                ;
                lemma_fundamental_div_mod_converse(t as int, p, -q, 0);
            } else {
                assert(t == (-q - 1) * p + (p - m)) by (nonlinear_arith)
                    requires
                        -t == q * p + m,
                ;
                lemma_fundamental_div_mod_converse(t as int, p, -q - 1, p - m);
            }
        }
    }
    if r < 0 {
        -r
    } else {
        period - r
    }
}

/// What the scheduler asks for: wait, then run the command of one timer.
#[derive(Clone, Copy, Debug)]
pub struct Firing {
    /// Registration index of the timer to run.
    pub index: usize,
    /// Nanoseconds to sleep before running it.
    pub wait: u64,
}

/// The entries that stand for the given due times: one per timer, tagged with
/// the timer's registration index.
pub open spec fn pending(dues: Seq<u64>) -> Seq<Entry> {
    Seq::new(dues.len(), |i: int| Entry { time: dues[i], index: i as usize })
}

/// Timer `i` fires first: no timer is due earlier, and none that is due at
/// the same time was registered before it.
pub open spec fn is_earliest(dues: Seq<u64>, i: int) -> bool {
    &&& 0 <= i < dues.len()
    &&& forall|j: int|
        0 <= j < dues.len() ==> dues[i] < #[trigger] dues[j] || (dues[i] == dues[j] && i <= j)
}

/// Only one timer fires first.
pub proof fn lemma_earliest_unique(dues: Seq<u64>, i: int, j: int)
    requires
        is_earliest(dues, i),
        is_earliest(dues, j),
    ensures
        i == j,
{
    assert(dues[i] < dues[j] || (dues[i] == dues[j] && i <= j));
    assert(dues[j] < dues[i] || (dues[j] == dues[i] && j <= i));
}

/// The due times of `count` timers that are all due at `now`.
pub open spec fn all_due(count: nat, now: u64) -> Seq<u64> {
    Seq::new(count, |i: int| now)
}

/// The periods of the timers, in nanoseconds.
pub open spec fn period_nanos(timer: Timer) -> int {
    timer.spec_period() * NANOS_PER_SEC
}

/// The scheduler state: the timers and the time at which each is due next.
pub struct Scheduler {
    timers: Vec<Timer>,
    heap: TimerHeap,
    dues: Ghost<Seq<u64>>,
}

impl Scheduler {
    /// The timers, in registration order.
    pub closed spec fn timers(&self) -> Seq<Timer> {
        self.timers@
    }

    /// The due time of each timer, by registration index.
    pub closed spec fn dues(&self) -> Seq<u64> {
        self.dues@
    }

    /// Every timer has exactly one pending entry, which holds its due time.
    pub closed spec fn wf(&self) -> bool {
        &&& self.heap.wf()
        &&& self.dues@.len() == self.timers@.len()
        &&& self.heap@ == pending(self.dues@).to_multiset()
    }

    /// Step of the scheduler: from the state `pre` and the two clock readings
    /// to the state `post` and the firing asked for.
    ///
    /// With no timers nothing changes and nothing fires. Otherwise the timer
    /// that is due first fires, after the wait that is left until it is due,
    /// and is due again at its next boundary; no other due time changes and no
    /// timer is dropped.
    pub open spec fn steps(
        pre: Scheduler,
        now: u64,
        wall: Timespec,
        post: Scheduler,
        firing: Option<Firing>,
    ) -> bool {
        &&& post.timers() == pre.timers()
        &&& pre.dues().len() == 0 ==> firing.is_none() && post.dues() == pre.dues()
        &&& pre.dues().len() > 0 ==> {
            &&& firing matches Some(f)
            &&& is_earliest(pre.dues(), f.index as int)
            &&& f.wait == wait_for(pre.dues()[f.index as int] as int, now as int)
            &&& post.dues() == pre.dues().update(
                f.index as int,
                next_due(
                    pre.dues()[f.index as int] as int,
                    now as int,
                    wall.nanos(),
                    period_nanos(pre.timers()[f.index as int]),
                ) as u64,
            )
        }
    }

    /// A step fires one timer and touches the due time of no other; the
    /// timers stay the same, whatever comes of the command that is run.
    pub proof fn lemma_step_keeps_the_others(
        pre: Scheduler,
        now: u64,
        wall: Timespec,
        post: Scheduler,
        firing: Option<Firing>,
    )
        requires
            Scheduler::steps(pre, now, wall, post, firing),
        ensures
            post.timers() == pre.timers(),
            post.dues().len() == pre.dues().len(),
            forall|i: int|
                0 <= i < pre.dues().len() && !(firing matches Some(f) && f.index == i)
                    ==> post.dues()[i] == pre.dues()[i],
    {
    }

    /// A scheduler for the given timers, all of them due at `now`.
    pub fn new(timers: TimerSet, now: u64) -> (scheduler: Scheduler)
        ensures
            scheduler.wf(),
            scheduler.timers() == timers@,
            scheduler.dues() == all_due(timers@.len(), now),
    {
        let timers = timers.into_timers();
        let n = timers.len();
        let mut heap = TimerHeap::with_capacity(n);
        let mut i: usize = 0;
        let ghost all = Seq::new(n as nat, |i: int| now);
        proof {
            assert(pending(all.take(0)) =~= Seq::<Entry>::empty());
            assert(Seq::<Entry>::empty().to_multiset() =~= Multiset::<Entry>::empty()) by {
                Seq::<Entry>::empty().to_multiset_ensures();
                vstd::multiset::lemma_multiset_empty_len(Seq::<Entry>::empty().to_multiset());
            }
        }
        while i < n
            invariant
                i <= n,
                n == timers.len(),
                all == Seq::new(n as nat, |i: int| now),
                heap.wf(),
                heap@ == pending(all.take(i as int)).to_multiset(),
            decreases n - i,
        {
            let entry = Entry { time: now, index: i };
            heap.push(entry);
            proof {
                let shorter = pending(all.take(i as int));
                shorter.to_multiset_ensures();
                assert(pending(all.take(i + 1)) =~= shorter.push(entry));
            }
            i += 1;
        }
        proof {
            assert(all.take(n as int) =~= all);
        }
        Scheduler { timers, heap, dues: Ghost(all) }
    }

    /// A scheduler for the given timers, all of them due at once: at what
    /// the steady clock reads now, whatever that is.
    pub fn start(timers: TimerSet) -> (scheduler: Scheduler)
        ensures
            scheduler.wf(),
            scheduler.timers() == timers@,
            exists|now: u64| scheduler.dues() == #[trigger] all_due(timers@.len(), now),
    {
        let now = steady_clock();
        let scheduler = Scheduler::new(timers, now);
        assert(scheduler.dues() == all_due(timers@.len(), now));
        scheduler
    }

    /// Number of timers scheduled.
    pub fn len(&self) -> (n: usize)
        ensures
            n == self.timers().len(),
    {
        self.timers.len()
    }

    /// The timer registered at `index`.
    pub fn timer(&self, index: usize) -> (timer: &Timer)
        requires
            index < self.timers().len(),
        ensures
            *timer == self.timers()[index as int],
    {
        &self.timers[index]
    }

    /// The time at which the timer registered at `index` is due next, in
    /// nanoseconds on the steady clock.
    pub fn due(&self, index: usize) -> (due: u64)
        requires
            self.wf(),
            index < self.timers().len(),
        ensures
            due == self.dues()[index as int],
    {
        let ghost entries = pending(self.dues@);
        let count = self.timers.len();
        proof {
            entries.to_multiset_ensures();
            assert(entries[index as int] == Entry { time: self.dues@[index as int], index });
            assert(entries.contains(entries[index as int]));
        }
        match self.heap.time_of(index) {
            Some(time) => {
                proof {
                    let found = Entry { time, index };
                    assert(entries.contains(found));
                    let k = choose|k: int| 0 <= k < entries.len() && entries[k] == found;
                    assert(k < count);
                    assert(entries[k] == Entry { time: self.dues@[k], index: k as usize });
                }
                time
            },
            None => {
                proof {
                    assert(self.heap@.contains(entries[index as int]));
                }
                0
            },
        }
    }

    /// Takes up the timer that is due first, given the readings of the steady
    /// clock (nanoseconds) and of the wall clock, and schedules its next
    /// firing.
    pub fn advance(&mut self, now: u64, wall: Timespec) -> (firing: Option<Firing>)
        requires
            old(self).wf(),
        ensures
            final(self).wf(),
            Scheduler::steps(*old(self), now, wall, *final(self), firing),
    {
        let ghost dues = self.dues@;
        let ghost entries = pending(dues);
        let count = self.timers.len();
        proof {
            entries.to_multiset_ensures();
        }
        let first = match self.heap.pop() {
            None => {
                return None;
            },
            Some(entry) => entry,
        };
        proof {
            let k = choose|k: int| 0 <= k < entries.len() && entries[k] == first;
            assert(entries.contains(first));
            assert(0 <= k < entries.len() && entries[k] == first);
            assert(k < count);
            assert(entries[k] == Entry { time: dues[k], index: k as usize });
            assert(first.index == k && first.time == dues[k]);
            assert forall|j: int| 0 <= j < dues.len() implies dues[k] < #[trigger] dues[j] || (
            dues[k] == dues[j] && k <= j) by {
                assert(entries.contains(entries[j]));
                assert(first.before(entries[j]));
            }
        }
        let index = first.index;
        let period: i128 = (self.timers[index].period() as i128) * (NANOS_PER_SEC as i128);
        let wait: u64 = if first.time > now {
            first.time - now
        } else {
            0
        };
        let fire_wall: i128 = wall.to_nanos() + (wait as i128);
        let ideal: i128 = (now as i128) + (wait as i128) + until_boundary(fire_wall, period);
        let due: u64 = if ideal > (u64::MAX as i128) {
            u64::MAX
        } else {
            ideal as u64
        };
        let again = Entry { time: due, index };
        self.heap.push(again);
        proof {
            broadcast use vstd::multiset::group_multiset_axioms;

            let updated = dues.update(index as int, due);
            assert(pending(updated) =~= entries.update(index as int, again));
            to_multiset_update(entries, index as int, again);
            assert(self.heap@ =~= pending(updated).to_multiset());
            self.dues = Ghost(updated);
        }
        Some(Firing { index, wait })
    }

    /// Reads both clocks and takes up the timer that is due first.
    ///
    /// Whatever the clocks read, the step taken is the one that
    /// [`Scheduler::advance`] takes on those readings.
    pub fn tick(&mut self) -> (firing: Option<Firing>)
        requires
            old(self).wf(),
        ensures
            final(self).wf(),
            exists|now: u64, wall: Timespec|
                Scheduler::steps(*old(self), now, wall, *final(self), firing),
    {
        let now = steady_clock();
        let wall = wall_clock();
        let firing = self.advance(now, wall);
        assert(Scheduler::steps(*old(self), now, wall, *self, firing));
        firing
    }
}

/// Reads the steady clock through `time::precise_time_ns`: nanoseconds since
/// an unspecified starting point. Nothing is claimed of the value.
#[verifier::external_body]
fn steady_clock() -> (now: u64) {
    time::precise_time_ns()
}

/// Reads the wall clock through `time::get_time`: time since the epoch.
/// Nothing is claimed of the value.
#[verifier::external_body]
fn wall_clock() -> (now: Timespec) {
    let t = time::get_time();
    Timespec { sec: t.sec, nsec: t.nsec }
}

} // verus!
