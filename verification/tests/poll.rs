use bartender::fifo::Fifo;
use bartender::poll::get_lines;
use bartender::poll::poll;
use bartender::poll::setup_pollfd;
use bartender::poll::FileBuffer;
use bartender::poll::PollFd;
use bartender::text::read_record;

fn ready(fd: i32) -> PollFd {
    let mut pollfd = setup_pollfd(fd);
    pollfd.revents = pollfd.events;
    pollfd
}

#[test]
fn fresh_descriptor_is_not_ready() {
    let pollfd = setup_pollfd(5);
    assert_eq!(pollfd.fd, 5);
    assert_eq!(pollfd.revents, 0);
    assert_ne!(pollfd.events, 0);
    assert!(!pollfd.is_ready());
    assert!(ready(5).is_ready());
}

#[test]
fn only_events_asked_for_make_ready() {
    assert!(PollFd { fd: 1, events: 1, revents: 1 }.is_ready());
    assert!(PollFd { fd: 1, events: 1, revents: 17 }.is_ready());
    assert!(!PollFd { fd: 1, events: 1, revents: 16 }.is_ready());
    assert!(!PollFd { fd: 1, events: 0, revents: 1 }.is_ready());
}

#[test]
fn record_loses_its_newline() {
    assert_eq!(read_record(b"hello\n".to_vec()), Some("hello".to_string()));
    assert_eq!(read_record(b"hello".to_vec()), Some("hello".to_string()));
    assert_eq!(read_record(b"\n".to_vec()), Some(String::new()));
    assert_eq!(read_record(b"\n\n".to_vec()), Some("\n".to_string()));
    assert_eq!(read_record("gr\u{fc}n\n".as_bytes().to_vec()), Some("gr\u{fc}n".to_string()));
}

#[test]
fn record_that_is_no_text_is_refused() {
    assert_eq!(read_record(vec![0x80, 0x0a]), None);
    assert_eq!(read_record(vec![0xe2, 0x82]), None);
}

#[test]
fn default_then_first_line() {
    // One pipe with the default "--".
    let fifo = Fifo { path: "/tmp/p".to_string(), id: 0, default: Some("--".to_string()) };
    let mut fds = Vec::new();
    let mut buffers = Vec::new();
    let first = fifo.attach(Some(3), &mut fds, &mut buffers);
    assert_eq!(first, Some(vec![(0, "--".to_string())]));
    assert_eq!(fds.len(), 1);
    assert_eq!(buffers.len(), 1);
    assert_eq!((buffers[0].fd, buffers[0].id), (3, 0));
    assert!(buffers[0].pending.is_empty());

    // "hello\n" is written to the pipe.
    fds[0].revents = fds[0].events;
    let batch = get_lines(&fds, &mut buffers, vec![Some(b"hello\n".to_vec())]);
    assert_eq!(batch, vec![(0, "hello".to_string())]);
    assert!(buffers[0].pending.is_empty());
}

#[test]
fn two_lines_in_two_cycles_are_two_batches() {
    let fds = vec![ready(3)];
    let mut buffers = vec![FileBuffer::new(3, 2)];
    let first = get_lines(&fds, &mut buffers, vec![Some(b"x\n".to_vec())]);
    let second = get_lines(&fds, &mut buffers, vec![Some(b"y\n".to_vec())]);
    assert_eq!(first, vec![(2, "x".to_string())]);
    assert_eq!(second, vec![(2, "y".to_string())]);
}

#[test]
fn pipes_ready_in_one_cycle_share_one_batch() {
    let fds = vec![ready(3), setup_pollfd(4), ready(5), ready(6)];
    let mut buffers = vec![
        FileBuffer::new(3, 10),
        FileBuffer::new(4, 11),
        FileBuffer::new(5, 12),
        FileBuffer::new(6, 13),
    ];
    let reads = vec![
        Some(b"a\n".to_vec()),
        Some(b"ignored\n".to_vec()),
        Some(b"c\n".to_vec()),
        Some(b"d\n".to_vec()),
    ];
    let batch = get_lines(&fds, &mut buffers, reads);
    assert_eq!(
        batch,
        vec![(10, "a".to_string()), (12, "c".to_string()), (13, "d".to_string())]
    );
    // The descriptor that was not ready keeps its (empty) buffer.
    assert!(buffers[1].pending.is_empty());
}

#[test]
fn incomplete_line_waits_for_its_end() {
    let fds = vec![ready(3)];
    let mut buffers = vec![FileBuffer::new(3, 0)];
    let first = get_lines(&fds, &mut buffers, vec![Some(b"hel".to_vec())]);
    assert!(first.is_empty());
    assert_eq!(buffers[0].pending, b"hel".to_vec());
    let second = get_lines(&fds, &mut buffers, vec![Some(b"lo\n".to_vec())]);
    assert_eq!(second, vec![(0, "hello".to_string())]);
    assert!(buffers[0].pending.is_empty());
}

#[test]
fn empty_read_changes_nothing() {
    let fds = vec![ready(3)];
    let mut buffers = vec![FileBuffer::new(3, 0)];
    buffers[0].pending = b"ab".to_vec();
    let batch = get_lines(&fds, &mut buffers, vec![Some(Vec::new())]);
    assert!(batch.is_empty());
    assert_eq!(buffers[0].pending, b"ab".to_vec());
}

#[test]
fn failed_read_does_not_stop_the_others() {
    let fds = vec![ready(3), ready(4), ready(5)];
    let mut buffers =
        vec![FileBuffer::new(3, 0), FileBuffer::new(4, 1), FileBuffer::new(5, 2)];
    buffers[1].pending = b"kept".to_vec();
    let with_failure = get_lines(
        &fds,
        &mut buffers,
        vec![Some(b"a\n".to_vec()), None, Some(b"c\n".to_vec())],
    );
    assert_eq!(with_failure, vec![(0, "a".to_string()), (2, "c".to_string())]);
    assert_eq!(buffers[1].pending, b"kept".to_vec());

    // The same cycle without the failing descriptor yields the same batch.
    let fds = vec![ready(3), ready(5)];
    let mut buffers = vec![FileBuffer::new(3, 0), FileBuffer::new(5, 2)];
    let without =
        get_lines(&fds, &mut buffers, vec![Some(b"a\n".to_vec()), Some(b"c\n".to_vec())]);
    assert_eq!(without, with_failure);
}

#[test]
fn record_that_is_no_text_is_discarded() {
    let fds = vec![ready(3), ready(4)];
    let mut buffers = vec![FileBuffer::new(3, 0), FileBuffer::new(4, 1)];
    let batch = get_lines(
        &fds,
        &mut buffers,
        vec![Some(vec![0xff, 0x0a]), Some(b"fine\n".to_vec())],
    );
    assert_eq!(batch, vec![(1, "fine".to_string())]);
    assert!(buffers[0].pending.is_empty());
}

#[test]
fn cycle_without_reads_yields_an_empty_batch() {
    let fds = vec![ready(3), ready(4)];
    let mut buffers = vec![FileBuffer::new(3, 0), FileBuffer::new(4, 1)];
    assert!(get_lines(&fds, &mut buffers, Vec::new()).is_empty());
    // A read list shorter than the descriptors: the rest was not read.
    let batch = get_lines(&fds, &mut buffers, vec![Some(b"a\n".to_vec())]);
    assert_eq!(batch, vec![(0, "a".to_string())]);
}

#[test]
fn descriptors_without_buffers_are_not_gone_through() {
    let fds = vec![ready(3), ready(4)];
    let mut buffers = vec![FileBuffer::new(3, 0)];
    let batch = get_lines(
        &fds,
        &mut buffers,
        vec![Some(b"a\n".to_vec()), Some(b"b\n".to_vec())],
    );
    assert_eq!(batch, vec![(0, "a".to_string())]);
}

#[test]
fn wait_that_counted_descriptors_has_woken() {
    let mut fds = vec![setup_pollfd(3), setup_pollfd(4), setup_pollfd(5)];
    let events = fds[0].events;
    assert!(poll(&mut fds, 2, &vec![events, 0, events]));
    assert!(fds[0].is_ready());
    assert!(!fds[1].is_ready());
    assert!(fds[2].is_ready());
    assert_eq!(fds.iter().map(|p| p.fd).collect::<Vec<i32>>(), vec![3, 4, 5]);
    assert!(fds.iter().all(|p| p.events == events));
}

#[test]
fn wait_that_failed_or_counted_nothing_has_not_woken() {
    let mut fds = vec![setup_pollfd(3)];
    assert!(!poll(&mut fds, 0, &vec![0]));
    assert!(!poll(&mut fds, -1, &vec![0]));
    assert!(poll(&mut fds, 1, &vec![0]));
}

#[test]
fn events_without_a_descriptor_and_descriptors_without_events() {
    let mut fds = vec![ready(3), ready(4)];
    let events = fds[0].events;
    assert!(poll(&mut fds, 1, &vec![0]));
    assert_eq!(fds[0].revents, 0);
    assert_eq!(fds[1].revents, events);
    assert!(poll(&mut fds, 1, &vec![events, 0, events]));
    assert_eq!((fds[0].revents, fds[1].revents), (events, 0));
    assert_eq!(fds.len(), 2);
}
