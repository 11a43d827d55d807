//! A binary min-heap of pending timer firings.
//!
//! Entries are ordered by due time; entries with the same due time are
//! ordered by the index under which their timer was registered, so the order
//! in which they leave the heap is fully determined by its contents.

use vstd::multiset::Multiset;
use vstd::prelude::*;
use vstd::seq_lib::to_multiset_build;
use vstd::seq_lib::to_multiset_remove;
use vstd::seq_lib::to_multiset_update;

verus! {

/// One pending firing: when it is due, and which timer it belongs to.
#[derive(Clone, Copy, Debug)]
pub struct Entry {
    /// Due time, in nanoseconds on the steady clock.
    pub time: u64,
    /// Registration index of the timer.
    pub index: usize,
}

impl Entry {
    /// `self` leaves the heap no later than `other`: the earlier due time
    /// first, the lower registration index first among equal due times.
    pub open spec fn before(self, other: Entry) -> bool {
        self.time < other.time || (self.time == other.time && self.index <= other.index)
    }

    /// Decides [`Entry::before`].
    pub fn precedes(&self, other: &Entry) -> (b: bool)
        ensures
            b == self.before(*other),
    {
        self.time < other.time || (self.time == other.time && self.index <= other.index)
    }
}

/// Position of the parent of position `i` in the implicit binary tree.
pub open spec fn parent(i: int) -> int {
    (i - 1) / 2
}

/// Every entry but the root is preceded by its parent.
pub open spec fn heap_ordered(s: Seq<Entry>) -> bool {
    forall|i: int| 0 < i < s.len() ==> s[parent(i)].before(#[trigger] s[i])
}

/// Heap order with one entry possibly too early for its place: every pair of
/// parent and child is ordered except the pair above `hole`, and the parent
/// of `hole` precedes the children of `hole`.
spec fn ordered_but_above(s: Seq<Entry>, hole: int) -> bool {
    &&& forall|i: int| 0 < i < s.len() && i != hole ==> s[parent(i)].before(#[trigger] s[i])
    &&& forall|c: int|
        0 < hole && 0 < c < s.len() && parent(c) == hole ==> s[parent(hole)].before(
            #[trigger] s[c],
        )
}

/// Heap order with one entry possibly too late for its place: every pair of
/// parent and child is ordered except the pairs below `hole`, and the parent
/// of `hole` precedes the children of `hole`.
spec fn ordered_but_below(s: Seq<Entry>, hole: int) -> bool {
    &&& forall|i: int|
        0 < i < s.len() && parent(i) != hole ==> s[parent(i)].before(#[trigger] s[i])
    &&& forall|c: int|
        0 < hole && 0 < c < s.len() && parent(c) == hole ==> s[parent(hole)].before(
            #[trigger] s[c],
        )
}

/// In a heap-ordered sequence the root precedes every entry.
pub proof fn lemma_root_first(s: Seq<Entry>, i: int)
    requires
        heap_ordered(s),
        0 <= i < s.len(),
    ensures
        s[0].before(s[i]),
    decreases i,
{
    if i > 0 {
        lemma_root_first(s, parent(i));
        assert(s[parent(i)].before(s[i]));
    }
}

/// Exchanges two entries; the contents stay the same as a multiset.
fn exchange(v: &mut Vec<Entry>, i: usize, j: usize)
    requires
        i < old(v).len(),
        j < old(v).len(),
    ensures
        final(v)@ == old(v)@.update(i as int, old(v)@[j as int]).update(
            j as int,
            old(v)@[i as int],
        ),
        final(v)@.to_multiset() == old(v)@.to_multiset(),
        final(v).len() == old(v).len(),
{
    let a = v[i];
    let b = v[j];
    v.set(i, b);
    v.set(j, a);
    proof {
        broadcast use vstd::multiset::group_multiset_axioms;

        let s = old(v)@;
        let s1 = s.update(i as int, b);
        s.to_multiset_ensures();
        assert(s.contains(a) && s.contains(b));
        to_multiset_update(s, i as int, b);
        to_multiset_update(s1, j as int, a);
        assert(v@.to_multiset() =~= s.to_multiset());
    }
}

/// Moves the entry at `start` towards the root until its parent precedes it.
fn sift_up(v: &mut Vec<Entry>, start: usize)
    requires
        start < old(v).len(),
        ordered_but_above(old(v)@, start as int),
    ensures
        heap_ordered(final(v)@),
        final(v)@.to_multiset() == old(v)@.to_multiset(),
        final(v).len() == old(v).len(),
{
    let mut i: usize = start;
    let mut settled: bool = false;
    while i > 0 && !settled
        invariant
            i < v.len(),
            v.len() == old(v).len(),
            v@.to_multiset() == old(v)@.to_multiset(),
            settled ==> heap_ordered(v@),
            !settled ==> ordered_but_above(v@, i as int),
        decreases i + if settled { 0int } else { 1int },
    {
        let p: usize = (i - 1) / 2;
        if v[p].precedes(&v[i]) {
            settled = true;
        } else {
            let ghost before = v@;
            exchange(v, p, i);
            proof {
                let after = v@;
                assert forall|j: int| 0 < j < after.len() && j != p implies after[parent(
                    j,
                )].before(#[trigger] after[j]) by {
                    if j == i {
                    } else if parent(j) == p {
                        assert(before[p as int].before(before[j]));
                    } else if parent(j) == i {
                        assert(before[parent(i as int)].before(before[j]));
                    } else {
                        assert(before[parent(j)].before(before[j]));
                    }
                }
                assert forall|c: int|
                    0 < p && 0 < c < after.len() && parent(c) == p implies after[parent(
                    p as int,
                )].before(#[trigger] after[c]) by {
                    assert(before[parent(p as int)].before(before[p as int]));
                    if c != i {
                        assert(before[p as int].before(before[c]));
                    }
                }
            }
            i = p;
        }
    }
}

/// Moves the entry at the root away from it until it precedes its children.
fn sift_down(v: &mut Vec<Entry>)
    requires
        old(v).len() > 0,
        ordered_but_below(old(v)@, 0),
    ensures
        heap_ordered(final(v)@),
        final(v)@.to_multiset() == old(v)@.to_multiset(),
        final(v).len() == old(v).len(),
{
    let n: usize = v.len();
    let mut i: usize = 0;
    let mut settled: bool = false;
    while !settled
        invariant
            n == v.len(),
            n == old(v).len(),
            i < n,
            v@.to_multiset() == old(v)@.to_multiset(),
            settled ==> heap_ordered(v@),
            !settled ==> ordered_but_below(v@, i as int),
        decreases n - i + if settled { 0int } else { 1int },
    {
        if n < 2 || i > (n - 2) / 2 {
            // No child: nothing below the hole is out of order.
            settled = true;
        } else {
            let left: usize = 2 * i + 1;
            let right: usize = left + 1;
            let mut least: usize = left;
            if right < n && !v[left].precedes(&v[right]) {
                least = right;
            }
            if v[i].precedes(&v[least]) {
                proof {
                    assert forall|j: int| 0 < j < v@.len() implies v@[parent(j)].before(
                        #[trigger] v@[j],
                    ) by {
                        if parent(j) == i {
                            assert(j == left || j == right);
                        }
                    }
                }
                settled = true;
            } else {
                let ghost before = v@;
                exchange(v, i, least);
                proof {
                    let after = v@;
                    assert forall|j: int|
                        0 < j < after.len() && parent(j) != least implies after[parent(
                        j,
                    )].before(#[trigger] after[j]) by {
                        if j == least {
                        } else if parent(j) == i {
                            assert(j == left || j == right);
                        } else if j == i {
                            assert(before[parent(i as int)].before(before[least as int]));
                        } else {
                            assert(before[parent(j)].before(before[j]));
                        }
                    }
                    assert forall|c: int|
                        0 < least && 0 < c < after.len() && parent(c) == least implies after[parent(
                        least as int,
                    )].before(#[trigger] after[c]) by {
                        assert(before[parent(c)].before(before[c]));
                    }
                }
                i = least;
            }
        }
    }
}

/// A priority queue of entries; the entry that is due first leaves first.
pub struct TimerHeap {
    entries: Vec<Entry>,
}

impl View for TimerHeap {
    type V = Multiset<Entry>;

    /// The entries held, without regard to their position.
    closed spec fn view(&self) -> Multiset<Entry> {
        self.entries@.to_multiset()
    }
}

impl TimerHeap {
    /// The entries are in heap order.
    pub closed spec fn wf(&self) -> bool {
        heap_ordered(self.entries@)
    }

    /// An empty heap with room for `capacity` entries.
    pub fn with_capacity(capacity: usize) -> (heap: TimerHeap)
        ensures
            heap.wf(),
            heap@ == Multiset::<Entry>::empty(),
    {
        let heap = TimerHeap { entries: Vec::with_capacity(capacity) };
        proof {
            heap.entries@.to_multiset_ensures();
            assert(heap@ =~= Multiset::<Entry>::empty()) by {
                assert(heap@.len() == 0);
                vstd::multiset::lemma_multiset_empty_len(heap@);
            }
        }
        heap
    }

    /// Number of entries held.
    pub fn len(&self) -> (n: usize)
        ensures
            n == self@.len(),
    {
        proof {
            self.entries@.to_multiset_ensures();
        }
        self.entries.len()
    }

    /// The due time of an entry with the given index, if there is one.
    pub fn time_of(&self, index: usize) -> (time: Option<u64>)
        ensures
            match time {
                Some(t) => self@.contains(Entry { time: t, index }),
                None => forall|e: Entry| self@.contains(e) ==> e.index != index,
            },
    {
        proof {
            self.entries@.to_multiset_ensures();
        }
        let mut i: usize = 0;
        while i < self.entries.len()
            invariant
                i <= self.entries@.len(),
                forall|k: int| 0 <= k < i ==> self.entries@[k].index != index,
            decreases self.entries@.len() - i,
        {
            if self.entries[i].index == index {
                proof {
                    self.entries@.to_multiset_ensures();
                    assert(self.entries@.contains(self.entries@[i as int]));
                    assert(self.entries@[i as int] == Entry {
                        time: self.entries@[i as int].time,
                        index,
                    });
                }
                return Some(self.entries[i].time);
            }
            i += 1;
        }
        assert forall|e: Entry| self@.contains(e) implies e.index != index by {
            let k = choose|k: int| 0 <= k < self.entries@.len() && self.entries@[k] == e;
        }
        None
    }

    /// Adds an entry.
    pub fn push(&mut self, entry: Entry)
        requires
            old(self).wf(),
        ensures
            final(self).wf(),
            final(self)@ == old(self)@.insert(entry),
    {
        let ghost before = self.entries@;
        self.entries.push(entry);
        let last: usize = self.entries.len() - 1;
        proof {
            to_multiset_build(before, entry);
            let s = self.entries@;
            assert forall|i: int| 0 < i < s.len() && i != last implies s[parent(i)].before(
                #[trigger] s[i],
            ) by {
                assert(before[parent(i)].before(before[i]));
            }
        }
        sift_up(&mut self.entries, last);
    }

    /// Removes and returns the entry that is due first, if there is one.
    pub fn pop(&mut self) -> (first: Option<Entry>)
        requires
            old(self).wf(),
        ensures
            final(self).wf(),
            old(self)@.len() == 0 ==> first.is_none() && final(self)@ == old(self)@,
            old(self)@.len() > 0 ==> first.is_some(),
            first matches Some(e) ==> {
                &&& old(self)@.contains(e)
                &&& forall|x: Entry| old(self)@.contains(x) ==> e.before(x)
                &&& final(self)@ == old(self)@.remove(e)
            },
    {
        let ghost before = self.entries@;
        proof {
            before.to_multiset_ensures();
        }
        if self.entries.len() == 0 {
            return None;
        }
        let top = self.entries[0];
        let last = self.entries.pop().unwrap();
        proof {
            assert(self.entries@ == before.remove(before.len() - 1));
            to_multiset_remove(before, before.len() - 1);
            assert forall|x: Entry| before.to_multiset().contains(x) implies top.before(x) by {
                let k = choose|k: int| 0 <= k < before.len() && before[k] == x;
                lemma_root_first(before, k);
            }
        }
        if self.entries.len() > 0 {
            let ghost shorter = self.entries@;
            self.entries.set(0, last);
            proof {
                to_multiset_update(shorter, 0, last);
                assert(self.entries@.to_multiset() =~= before.to_multiset().remove(top));
                let s = self.entries@;
                assert forall|i: int| 0 < i < s.len() && parent(i) != 0 implies s[parent(
                    i,
                )].before(#[trigger] s[i]) by {
                    assert(before[parent(i)].before(before[i]));
                }
            }
            sift_down(&mut self.entries);
        } else {
            proof {
                assert(self.entries@.to_multiset() =~= before.to_multiset().remove(top));
            }
        }
        Some(top)
    }
}

} // verus!
