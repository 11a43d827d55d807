use bartender::heap::Entry;
use bartender::heap::TimerHeap;
use bartender::schedule::until_boundary;
use bartender::schedule::Scheduler;
use bartender::schedule::Timespec;
use bartender::timer::Complaint;
use bartender::timer::Timer;
use bartender::timer::TimerSet;

const SECOND: u64 = 1_000_000_000;

fn timer(id: usize, period: i64, command: &str) -> Timer {
    Timer::new(id, period, command.to_string()).unwrap()
}

fn wall(sec: i64, nsec: i32) -> Timespec {
    Timespec { sec, nsec }
}

#[test]
fn boundary_after_a_time_between_boundaries() {
    assert_eq!(until_boundary(7, 10), 3);
}

#[test]
fn boundary_after_a_time_on_a_boundary_is_one_period_away() {
    assert_eq!(until_boundary(20, 10), 10);
    assert_eq!(until_boundary(0, 5), 5);
}

#[test]
fn boundary_after_a_time_before_the_epoch() {
    assert_eq!(until_boundary(-7, 10), 7);
    assert_eq!(until_boundary(-10, 10), 10);
    assert_eq!(until_boundary(-11, 10), 1);
}

#[test]
fn boundary_is_strictly_later_and_at_most_one_period_away() {
    let period: i128 = 7;
    let mut t: i128 = -50;
    while t <= 50 {
        let d = until_boundary(t, period);
        assert!(0 < d && d <= period);
        assert_eq!((t + d).rem_euclid(period), 0);
        t += 1;
    }
}

#[test]
fn wall_clock_reading_in_nanoseconds() {
    assert_eq!(wall(2, 500).to_nanos(), 2_000_000_500);
    assert_eq!(wall(-1, 999_999_999).to_nanos(), -1);
    assert_eq!(
        wall(i64::MAX, 999_999_999).to_nanos(),
        (i64::MAX as i128) * 1_000_000_000 + 999_999_999
    );
}

#[test]
fn heap_hands_out_entries_by_time_then_by_index() {
    let mut heap = TimerHeap::with_capacity(4);
    heap.push(Entry { time: 5, index: 0 });
    heap.push(Entry { time: 3, index: 1 });
    heap.push(Entry { time: 3, index: 0 });
    heap.push(Entry { time: 9, index: 2 });
    assert_eq!(heap.len(), 4);
    let mut order = Vec::new();
    while let Some(entry) = heap.pop() {
        order.push((entry.time, entry.index));
    }
    assert_eq!(order, vec![(3, 0), (3, 1), (5, 0), (9, 2)]);
    assert_eq!(heap.len(), 0);
}

#[test]
fn heap_of_many_entries_comes_out_sorted() {
    let mut heap = TimerHeap::with_capacity(0);
    let mut x: u64 = 12345;
    let mut expected = Vec::new();
    for index in 0..200usize {
        x = x.wrapping_mul(6364136223846793005).wrapping_add(1442695040888963407);
        let time = (x >> 33) % 50;
        heap.push(Entry { time, index });
        expected.push((time, index));
    }
    expected.sort();
    let mut order = Vec::new();
    while let Some(entry) = heap.pop() {
        order.push((entry.time, entry.index));
    }
    assert_eq!(order, expected);
}

#[test]
fn empty_heap_hands_out_nothing() {
    let mut heap = TimerHeap::with_capacity(1);
    assert!(heap.pop().is_none());
    assert!(heap.time_of(0).is_none());
}

#[test]
fn heap_finds_the_time_of_an_index() {
    let mut heap = TimerHeap::with_capacity(2);
    heap.push(Entry { time: 8, index: 1 });
    heap.push(Entry { time: 2, index: 0 });
    assert_eq!(heap.time_of(1), Some(8));
    assert_eq!(heap.time_of(0), Some(2));
    assert_eq!(heap.time_of(2), None);
}

#[test]
fn entry_order_is_by_time_then_index() {
    let early = Entry { time: 1, index: 9 };
    let late = Entry { time: 2, index: 0 };
    assert!(early.precedes(&late));
    assert!(!late.precedes(&early));
    let first = Entry { time: 2, index: 0 };
    let second = Entry { time: 2, index: 1 };
    assert!(first.precedes(&second));
    assert!(!second.precedes(&first));
    assert!(first.precedes(&first));
}

#[test]
fn timer_needs_a_positive_period() {
    assert!(Timer::new(0, 0, "date".to_string()).is_none());
    assert!(Timer::new(0, -5, "date".to_string()).is_none());
    let t = Timer::new(3, 1, "date".to_string()).unwrap();
    assert_eq!(t.id(), 3);
    assert_eq!(t.period(), 1);
    assert_eq!(t.command(), "date");
}

#[test]
fn two_timers_of_two_and_three_seconds() {
    let set = TimerSet::new(vec![timer(0, 2, "echo A"), timer(1, 3, "echo B")]);
    assert_eq!(set.len(), 2);
    let mut scheduler = Scheduler::new(set, 0);
    assert_eq!(scheduler.len(), 2);
    assert_eq!(scheduler.due(0), 0);
    assert_eq!(scheduler.due(1), 0);

    // t = 0: both fire, in the order of their registration.
    let first = scheduler.advance(0, wall(0, 0)).unwrap();
    assert_eq!((first.index, first.wait), (0, 0));
    assert_eq!(scheduler.timer(first.index).command(), "echo A");
    assert_eq!(scheduler.due(0), 2 * SECOND);
    let second = scheduler.advance(0, wall(0, 0)).unwrap();
    assert_eq!((second.index, second.wait), (1, 0));
    assert_eq!(scheduler.timer(second.index).command(), "echo B");
    assert_eq!(scheduler.due(1), 3 * SECOND);

    // t = 2: timer 0 fires again.
    let third = scheduler.advance(1_000, wall(0, 1_000)).unwrap();
    assert_eq!((third.index, third.wait), (0, 2 * SECOND - 1_000));
    assert_eq!(scheduler.due(0), 4 * SECOND);

    // t = 3: timer 1 fires.
    let fourth = scheduler.advance(2 * SECOND + 1_000, wall(2, 1_000)).unwrap();
    assert_eq!((fourth.index, fourth.wait), (1, SECOND - 1_000));
    assert_eq!(scheduler.due(1), 6 * SECOND);

    // t = 4: timer 0 again; no timer was dropped.
    let fifth = scheduler.advance(3 * SECOND + 5, wall(3, 5)).unwrap();
    assert_eq!((fifth.index, fifth.wait), (0, SECOND - 5));
    assert_eq!(scheduler.due(0), 6 * SECOND);
    assert_eq!(scheduler.len(), 2);

    // t = 6: both are due at once; the one registered first fires first.
    let sixth = scheduler.advance(4 * SECOND, wall(4, 0)).unwrap();
    assert_eq!((sixth.index, sixth.wait), (0, 2 * SECOND));
    let seventh = scheduler.advance(6 * SECOND, wall(6, 0)).unwrap();
    assert_eq!((seventh.index, seventh.wait), (1, 0));
}

#[test]
fn scheduler_without_timers_asks_for_nothing() {
    let mut scheduler = Scheduler::new(TimerSet::new(Vec::new()), 17);
    assert_eq!(scheduler.len(), 0);
    assert!(scheduler.advance(20, wall(5, 0)).is_none());
    assert!(scheduler.tick().is_none());
}

#[test]
fn first_firing_aligns_to_the_wall_clock() {
    // The steady clock starts at zero when the wall clock reads 1000.3 s.
    let mut scheduler = Scheduler::new(TimerSet::new(vec![timer(0, 10, "date")]), 0);
    let firing = scheduler.advance(0, wall(1000, 300_000_000)).unwrap();
    assert_eq!((firing.index, firing.wait), (0, 0));
    // Next boundary: 1010 s on the wall clock, 9.7 s from now.
    assert_eq!(scheduler.due(0), 9_700_000_000);
}

#[test]
fn late_firing_skips_overrun_intervals_and_keeps_alignment() {
    let mut scheduler = Scheduler::new(TimerSet::new(vec![timer(0, 10, "date")]), 0);
    scheduler.advance(0, wall(1000, 300_000_000)).unwrap();
    // The command was slow: the timer is taken up 25 s later, at 1025.3 s.
    let late = scheduler.advance(25 * SECOND, wall(1025, 300_000_000)).unwrap();
    assert_eq!(late.wait, 0);
    // The boundary at 1020 s is skipped, the next one is 1030 s.
    assert_eq!(scheduler.due(0), 29_700_000_000);
    // Taken up in time, it waits for the boundary and is due one period on.
    let timely = scheduler.advance(26 * SECOND, wall(1026, 300_000_000)).unwrap();
    assert_eq!(timely.wait, 3_700_000_000);
    assert_eq!(scheduler.due(0), 39_700_000_000);
}

#[test]
fn delay_of_less_than_a_period_does_not_shift_later_firings() {
    let mut scheduler = Scheduler::new(TimerSet::new(vec![timer(0, 5, "date")]), 0);
    scheduler.advance(0, wall(100, 0)).unwrap();
    assert_eq!(scheduler.due(0), 5 * SECOND);
    // Each firing runs 4.9 s late; the due times stay on the 5 s grid.
    let mut now = 5 * SECOND + 4_900_000_000;
    for round in 2..6u64 {
        let firing = scheduler.advance(now, wall(100 + (now / SECOND) as i64, 900_000_000)).unwrap();
        assert_eq!(firing.wait, 0);
        assert_eq!(scheduler.due(0), round * 5 * SECOND);
        now += 5 * SECOND;
    }
}

#[test]
fn wall_clock_before_the_epoch() {
    let mut scheduler = Scheduler::new(TimerSet::new(vec![timer(0, 2, "date")]), 0);
    scheduler.advance(0, wall(-1, 500_000_000)).unwrap();
    // -0.5 s: the next multiple of 2 s is 0, half a second away.
    assert_eq!(scheduler.due(0), 500_000_000);
}

#[test]
fn due_time_stops_at_the_largest_value() {
    let mut scheduler = Scheduler::new(TimerSet::new(vec![timer(0, 1, "date")]), u64::MAX - 5);
    let firing = scheduler.advance(0, wall(0, 0)).unwrap();
    assert_eq!(firing.wait, u64::MAX - 5);
    assert_eq!(scheduler.due(0), u64::MAX);
}

#[test]
fn longest_period_is_scheduled() {
    let mut scheduler = Scheduler::new(TimerSet::new(vec![timer(0, i64::MAX, "date")]), 0);
    let firing = scheduler.advance(7, wall(1, 0)).unwrap();
    assert_eq!(firing.wait, 0);
    assert_eq!(scheduler.due(0), u64::MAX);
}

#[test]
fn started_scheduler_has_every_timer_due_at_once() {
    let set = TimerSet::new(vec![timer(0, 2, "a"), timer(1, 3, "b"), timer(2, 5, "c")]);
    let scheduler = Scheduler::start(set);
    assert_eq!(scheduler.len(), 3);
    assert_eq!(scheduler.due(0), scheduler.due(1));
    assert_eq!(scheduler.due(1), scheduler.due(2));
}

#[test]
fn running_the_timers_starts_a_scheduler() {
    let scheduler = TimerSet::new(vec![timer(0, 2, "a"), timer(1, 3, "b")]).run();
    assert_eq!(scheduler.len(), 2);
    assert_eq!(scheduler.due(0), scheduler.due(1));
    assert_eq!(scheduler.timer(1).command(), "b");
}

#[test]
fn tick_reads_the_clocks_and_fires_the_only_timer() {
    let mut scheduler = Scheduler::new(TimerSet::new(vec![timer(0, 3600, "date")]), 0);
    let first = scheduler.tick().unwrap();
    assert_eq!(first.index, 0);
    let due = scheduler.due(0);
    let second = scheduler.tick().unwrap();
    assert_eq!(second.index, 0);
    // The second firing waits for the due time of the first, at most an hour.
    assert!(second.wait <= 3600 * SECOND);
    assert!(scheduler.due(0) > due);
}

#[test]
fn command_output_becomes_one_update() {
    let t = timer(4, 2, "echo A");
    assert_eq!(t.update(b"A\n".to_vec()), Some(vec![(4, "A".to_string())]));
    assert_eq!(t.update(b"A".to_vec()), Some(vec![(4, "A".to_string())]));
    assert_eq!(t.update(Vec::new()), Some(vec![(4, String::new())]));
    assert_eq!(t.update(b"a\nb\n".to_vec()), Some(vec![(4, "a\nb".to_string())]));
}

#[test]
fn command_output_that_is_no_text_yields_nothing() {
    let t = timer(4, 2, "cat /dev/urandom");
    assert_eq!(t.update(vec![0xff, 0xfe, 0x0a]), None);
    assert_eq!(t.update(vec![0xc3]), None);
}

#[test]
fn command_that_ran_well_yields_its_output() {
    let t = timer(1, 2, "echo A");
    assert_eq!(
        t.execute(Some((b"A\n".to_vec(), Some(0)))),
        (Some(vec![(1, "A".to_string())]), None)
    );
}

#[test]
fn command_that_failed_still_yields_its_output() {
    let t = timer(1, 2, "false");
    assert_eq!(
        t.execute(Some((b"partial\n".to_vec(), Some(3)))),
        (Some(vec![(1, "partial".to_string())]), Some(Complaint::Exited(3)))
    );
    assert_eq!(
        t.execute(Some((Vec::new(), Some(-1)))),
        (Some(vec![(1, String::new())]), Some(Complaint::Exited(-1)))
    );
}

#[test]
fn command_that_was_killed_is_complained_of() {
    let t = timer(1, 2, "sleep 100");
    assert_eq!(
        t.execute(Some((b"x".to_vec(), None))),
        (Some(vec![(1, "x".to_string())]), Some(Complaint::Killed))
    );
}

#[test]
fn command_that_wrote_no_text_yields_no_update() {
    let t = timer(1, 2, "head -c 1 /dev/urandom");
    assert_eq!(t.execute(Some((vec![0xff], Some(0)))), (None, None));
    assert_eq!(t.execute(Some((vec![0xff], Some(2)))), (None, Some(Complaint::Exited(2))));
}

#[test]
fn command_that_did_not_start_yields_nothing() {
    let t = timer(1, 2, "/no/such/command");
    assert_eq!(t.execute(None), (None, None));
}
