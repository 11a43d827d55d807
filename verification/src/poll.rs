//! One wake cycle of the pipe reader: which descriptors are ready, and which
//! records the bytes read from them complete.

use crate::text::ends_line;
use crate::text::read_record;
use crate::text::record_text;
use crate::text::NEWLINE;
use vstd::prelude::*;

verus! {

/// Message type sent through our channels.
pub type Message = Vec<(usize, String)>;

/// A descriptor as it is handed to the readiness wait and comes back from
/// it: the events asked for, and the events reported.
#[derive(Clone, Copy, Debug)]
pub struct PollFd {
    pub fd: i32,
    pub events: i16,
    pub revents: i16,
}

impl PollFd {
    /// One of the events asked for was reported.
    pub open spec fn ready(self) -> bool {
        self.revents & self.events != 0
    }

    /// Decides [`PollFd::ready`].
    pub fn is_ready(&self) -> (ready: bool)
        ensures
            ready == self.ready(),
    {
        self.revents & self.events != 0
    }
}

/// The event "there is data to read", as `libc::POLLIN` gives it on this
/// platform. All that is claimed of the value is that it is not zero, which
/// holds on every platform that the crate knows.
#[verifier::external_body]
fn poll_in() -> (events: i16)
    ensures
        events != 0,
{
    libc::POLLIN
}

/// Set up a descriptor to use with the readiness wait: it asks for data to
/// read, and nothing is reported yet.
pub fn setup_pollfd(fd: i32) -> (pollfd: PollFd)
    ensures
        pollfd.fd == fd,
        pollfd.events != 0,
        pollfd.revents == 0,
        !pollfd.ready(),
{
    let events = poll_in();
    assert(0i16 & events == 0) by (bit_vector);
    PollFd { fd, events, revents: 0 }
}

/// Takes what the readiness wait came back with: `count`, the number of
/// descriptors that it counted as ready, or a negative number where it
/// failed, and for each descriptor the events that it reported. Notes the
/// events with the descriptors, and tells whether the wait found anything to
/// read.
pub fn poll(fds: &mut Vec<PollFd>, count: i32, reported: &Vec<i16>) -> (woken: bool)
    ensures
        woken == (count > 0),
        final(fds)@.len() == old(fds)@.len(),
        forall|i: int|
            0 <= i < old(fds)@.len() ==> {
                &&& (#[trigger] final(fds)@[i]).fd == old(fds)@[i].fd
                &&& final(fds)@[i].events == old(fds)@[i].events
                &&& final(fds)@[i].revents == if i < reported@.len() {
                    reported@[i]
                } else {
                    old(fds)@[i].revents
                }
            },
{
    let n = if fds.len() <= reported.len() {
        fds.len()
    } else {
        reported.len()
    };
    let mut i: usize = 0;
    while i < n
        invariant
            i <= n,
            n <= reported@.len(),
            n <= fds@.len(),
            fds@.len() == old(fds)@.len(),
            forall|j: int|
                0 <= j < fds@.len() ==> {
                    &&& (#[trigger] fds@[j]).fd == old(fds)@[j].fd
                    &&& fds@[j].events == old(fds)@[j].events
                    &&& fds@[j].revents == if j < i {
                        reported@[j]
                    } else {
                        old(fds)@[j].revents
                    }
                },
        decreases n - i,
    {
        let entry = fds[i];
        fds.set(i, PollFd { fd: entry.fd, events: entry.events, revents: reported[i] });
        i += 1;
    }
    count > 0
}

/// The bytes of a record that is not complete yet, annotated with the
/// descriptor they came from and the key of the source.
#[derive(Debug)]
pub struct FileBuffer {
    /// Bytes read so far that no newline has ended.
    pub pending: Vec<u8>,
    /// The descriptor that is read.
    pub fd: i32,
    /// The key under which the records are merged.
    pub id: usize,
}

impl FileBuffer {
    /// An empty buffer for the given descriptor and key.
    pub fn new(fd: i32, id: usize) -> (buffer: FileBuffer)
        ensures
            buffer.pending@ == Seq::<u8>::empty(),
            buffer.fd == fd,
            buffer.id == id,
    {
        FileBuffer { pending: Vec::new(), fd, id }
    }
}

/// What is buffered for a descriptor after one wake cycle.
///
/// A descriptor that is not ready, or whose read failed, keeps what it had.
/// Otherwise the bytes read are added; if they end the record, nothing is
/// left, else they stay until a later cycle completes the record.
pub open spec fn pending_after(pending: Seq<u8>, ready: bool, read: Option<Seq<u8>>) -> Seq<u8> {
    match read {
        Some(bytes) if ready => if ends_line(pending + bytes) {
            Seq::empty()
        } else {
            pending + bytes
        },
        _ => pending,
    }
}

/// The record that a descriptor yields in one wake cycle, if any.
///
/// It yields one where it is ready, its read succeeded, the bytes read end
/// the record, and the record is valid UTF-8: then the text is the record,
/// with what was buffered before, without the newline.
pub open spec fn line_after(pending: Seq<u8>, ready: bool, read: Option<Seq<u8>>) -> Option<
    Seq<char>,
> {
    match read {
        Some(bytes) if ready && ends_line(pending + bytes) => record_text(pending + bytes),
        _ => None,
    }
}

/// What was read from descriptor `i`: nothing where the cycle holds no read
/// for it.
pub open spec fn read_of(reads: Seq<Option<Vec<u8>>>, i: int) -> Option<Seq<u8>> {
    if 0 <= i < reads.len() {
        match reads[i] {
            Some(bytes) => Some(bytes@),
            None => None,
        }
    } else {
        None
    }
}

/// The batch of one wake cycle over the first `n` descriptors: in descriptor
/// order, one update for each descriptor that yields a record.
pub open spec fn lines(
    fds: Seq<PollFd>,
    buffers: Seq<FileBuffer>,
    reads: Seq<Option<Vec<u8>>>,
    n: int,
) -> Seq<(usize, Seq<char>)>
    decreases n,
{
    if n <= 0 {
        Seq::empty()
    } else {
        let before = lines(fds, buffers, reads, n - 1);
        match line_after(buffers[n - 1].pending@, fds[n - 1].ready(), read_of(reads, n - 1)) {
            Some(text) => before.push((buffers[n - 1].id, text)),
            None => before,
        }
    }
}

/// Descriptor `i` yields a record in the cycle.
pub open spec fn yields(
    fds: Seq<PollFd>,
    buffers: Seq<FileBuffer>,
    reads: Seq<Option<Vec<u8>>>,
    i: int,
) -> bool {
    line_after(buffers[i].pending@, fds[i].ready(), read_of(reads, i)).is_some()
}

/// The descriptors among the first `n` that yield a record in the cycle.
pub open spec fn yielding(
    fds: Seq<PollFd>,
    buffers: Seq<FileBuffer>,
    reads: Seq<Option<Vec<u8>>>,
    n: int,
) -> Set<int> {
    Set::new(|i: int| 0 <= i < n && yields(fds, buffers, reads, i))
}

/// The one batch of a cycle holds exactly one update for each descriptor
/// that yields a record: as many updates as there are such descriptors, and
/// for each of them its record under its key.
pub proof fn lemma_one_entry_per_record(
    fds: Seq<PollFd>,
    buffers: Seq<FileBuffer>,
    reads: Seq<Option<Vec<u8>>>,
    n: int,
)
    requires
        0 <= n,
    ensures
        yielding(fds, buffers, reads, n).finite(),
        lines(fds, buffers, reads, n).len() == yielding(fds, buffers, reads, n).len(),
        forall|i: int|
            0 <= i < n && #[trigger] yields(fds, buffers, reads, i) ==> lines(
                fds,
                buffers,
                reads,
                n,
            ).contains(
                (
                    buffers[i].id,
                    line_after(buffers[i].pending@, fds[i].ready(), read_of(reads, i)).unwrap(),
                ),
            ),
    decreases n,
{
    if n == 0 {
        assert(yielding(fds, buffers, reads, n) =~= Set::<int>::empty());
    } else {
        lemma_one_entry_per_record(fds, buffers, reads, n - 1);
        let before = lines(fds, buffers, reads, n - 1);
        let now = lines(fds, buffers, reads, n);
        let fewer = yielding(fds, buffers, reads, n - 1);
        if yields(fds, buffers, reads, n - 1) {
            assert(yielding(fds, buffers, reads, n) =~= fewer.insert(n - 1));
            assert(now.last() == (
                buffers[n - 1].id,
                line_after(
                    buffers[n - 1].pending@,
                    fds[n - 1].ready(),
                    read_of(reads, n - 1),
                ).unwrap(),
            ));
        } else {
            assert(yielding(fds, buffers, reads, n) =~= fewer);
        }
        assert forall|i: int| 0 <= i < n && #[trigger] yields(fds, buffers, reads, i) implies now.contains(
            (
                buffers[i].id,
                line_after(buffers[i].pending@, fds[i].ready(), read_of(reads, i)).unwrap(),
            ),
        ) by {
            if i < n - 1 {
                let entry = (
                    buffers[i].id,
                    line_after(buffers[i].pending@, fds[i].ready(), read_of(reads, i)).unwrap(),
                );
                let k = choose|k: int| 0 <= k < before.len() && before[k] == entry;
                assert(now[k] == entry);
            } else {
                assert(now[now.len() - 1] == now.last());
            }
        }
    }
}

/// The batch of a cycle depends on the first `n` descriptors only.
proof fn lemma_lines_of_prefix(
    fds: Seq<PollFd>,
    buffers: Seq<FileBuffer>,
    reads: Seq<Option<Vec<u8>>>,
    other_fds: Seq<PollFd>,
    other_buffers: Seq<FileBuffer>,
    other_reads: Seq<Option<Vec<u8>>>,
    n: int,
)
    requires
        forall|i: int|
            0 <= i < n ==> fds[i] == other_fds[i] && buffers[i] == other_buffers[i] && read_of(
                reads,
                i,
            ) == read_of(other_reads, i),
    ensures
        lines(fds, buffers, reads, n) == lines(other_fds, other_buffers, other_reads, n),
    decreases n,
{
    if n > 0 {
        lemma_lines_of_prefix(fds, buffers, reads, other_fds, other_buffers, other_reads, n - 1);
    }
}

/// Isolation: a descriptor that yields no record in a cycle, because it is
/// not ready, its read failed, its record is not complete or not valid
/// text, leaves the batch as it would be without that descriptor. The
/// records of the other descriptors are delivered all the same.
pub proof fn lemma_silent_descriptor_is_absent(
    fds: Seq<PollFd>,
    buffers: Seq<FileBuffer>,
    reads: Seq<Option<Vec<u8>>>,
    n: int,
    silent: int,
)
    requires
        0 <= silent < n,
        n <= fds.len(),
        n <= buffers.len(),
        n <= reads.len(),
        !yields(fds, buffers, reads, silent),
    ensures
        lines(fds, buffers, reads, n) == lines(
            fds.remove(silent),
            buffers.remove(silent),
            reads.remove(silent),
            n - 1,
        ),
    decreases n,
{
    let fewer_fds = fds.remove(silent);
    let fewer_buffers = buffers.remove(silent);
    let fewer_reads = reads.remove(silent);
    if silent == n - 1 {
        lemma_lines_of_prefix(fds, buffers, reads, fewer_fds, fewer_buffers, fewer_reads, n - 1);
    } else {
        lemma_silent_descriptor_is_absent(fds, buffers, reads, n - 1, silent);
        assert(fewer_fds[n - 2] == fds[n - 1]);
        assert(fewer_buffers[n - 2] == buffers[n - 1]);
        assert(read_of(fewer_reads, n - 2) == read_of(reads, n - 1));
    }
}

/// The batch as a sequence of keys and texts.
pub open spec fn batch_view(batch: Seq<(usize, String)>) -> Seq<(usize, Seq<char>)> {
    batch.map_values(|update: (usize, String)| (update.0, update.1@))
}

/// The number of descriptors that a cycle goes through: those that have both
/// an entry and a buffer.
pub open spec fn paired(fds: Seq<PollFd>, buffers: Seq<FileBuffer>) -> int {
    if fds.len() <= buffers.len() {
        fds.len() as int
    } else {
        buffers.len() as int
    }
}

/// Every descriptor entry stands beside the buffer of the same descriptor.
pub open spec fn matched(fds: Seq<PollFd>, buffers: Seq<FileBuffer>) -> bool {
    forall|i: int| 0 <= i < paired(fds, buffers) ==> (#[trigger] fds[i]).fd == buffers[i].fd
}

/// Fill some buffers from a set of previously polled descriptors, and
/// collect the records that this completes.
///
/// `reads[i]` holds the bytes that were read from descriptor `i` in this
/// cycle, or nothing where it was not read or the read failed. The result is
/// the one batch of the cycle.
pub fn get_lines(
    fds: &Vec<PollFd>,
    buffers: &mut Vec<FileBuffer>,
    reads: Vec<Option<Vec<u8>>>,
) -> (batch: Message)
    requires
        matched(fds@, old(buffers)@),
    ensures
        batch_view(batch@) == lines(fds@, old(buffers)@, reads@, paired(fds@, old(buffers)@)),
        final(buffers)@.len() == old(buffers)@.len(),
        forall|i: int|
            0 <= i < old(buffers)@.len() ==> {
                &&& (#[trigger] final(buffers)@[i]).fd == old(buffers)@[i].fd
                &&& final(buffers)@[i].id == old(buffers)@[i].id
                &&& final(buffers)@[i].pending@ == if i < paired(fds@, old(buffers)@) {
                    pending_after(old(buffers)@[i].pending@, fds@[i].ready(), read_of(reads@, i))
                } else {
                    old(buffers)@[i].pending@
                }
            },
{
    let mut reads = reads;
    let n: usize = if fds.len() <= buffers.len() {
        fds.len()
    } else {
        buffers.len()
    };
    let mut batch: Message = Vec::with_capacity(n);
    let ghost given = reads@;
    let mut i: usize = 0;
    assert(batch_view(batch@) =~= Seq::empty());
    while i < n
        invariant
            i <= n,
            n == paired(fds@, old(buffers)@),
            buffers@.len() == old(buffers)@.len(),
            reads@.len() == given.len(),
            forall|j: int| i <= j < reads@.len() ==> reads@[j] == given[j],
            batch_view(batch@) == lines(fds@, old(buffers)@, given, i as int),
            forall|j: int|
                0 <= j < buffers@.len() ==> {
                    &&& (#[trigger] buffers@[j]).fd == old(buffers)@[j].fd
                    &&& buffers@[j].id == old(buffers)@[j].id
                    &&& buffers@[j].pending@ == if j < i {
                        pending_after(
                            old(buffers)@[j].pending@,
                            fds@[j].ready(),
                            read_of(given, j),
                        )
                    } else {
                        old(buffers)@[j].pending@
                    }
                },
        decreases n - i,
    {
        let ghost was = buffers@;
        let ghost sent = batch@;
        let read: Option<Vec<u8>> = if i < reads.len() {
            let mut taken: Option<Vec<u8>> = None;
            std::mem::swap(&mut reads[i], &mut taken);
            taken
        } else {
            None
        };
        assert(match read {
            Some(bytes) => read_of(given, i as int) == Some(bytes@),
            None => read_of(given, i as int).is_none(),
        });
        if fds[i].is_ready() {
            if let Some(bytes) = read {
                let id = buffers[i].id;
                let fd = buffers[i].fd;
                let mut record: Vec<u8> = Vec::new();
                std::mem::swap(&mut buffers[i].pending, &mut record);
                let mut bytes = bytes;
                record.append(&mut bytes);
                assert(record@ == was[i as int].pending@ + read_of(given, i as int).unwrap());
                let m = record.len();
                if m > 0 && record[m - 1] == NEWLINE {
                    if let Some(text) = read_record(record) {
                        batch.push((id, text));
                        assert(batch_view(batch@) =~= batch_view(sent).push((id, text@)));
                    }
                } else {
                    buffers[i].pending = record;
                }
            }
        }
        proof {
            assert forall|j: int| 0 <= j < buffers@.len() implies {
                &&& (#[trigger] buffers@[j]).fd == old(buffers)@[j].fd
                &&& buffers@[j].id == old(buffers)@[j].id
                &&& buffers@[j].pending@ == if j < i + 1 {
                    pending_after(old(buffers)@[j].pending@, fds@[j].ready(), read_of(given, j))
                } else {
                    old(buffers)@[j].pending@
                }
            } by {
                if j != i {
                    assert(buffers@[j] == was[j]);
                }
            }
        }
        i += 1;
    }
    batch
}

} // verus!
