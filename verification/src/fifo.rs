//! Pipe sources: a named pipe that delivers one record per line.

use crate::error::ConfigError;
use crate::error::Failure;
use crate::poll::batch_view;
use crate::poll::matched;
use crate::poll::setup_pollfd;
use crate::poll::FileBuffer;
use crate::poll::Message;
use crate::poll::PollFd;
use crate::value::get_string;
use crate::value::lookup_string;
use crate::value::Node;
use vstd::prelude::*;
use vstd::string::StringExecFns;

verus! {

/// `rest` as seen from the directory `dir`: `rest` itself if it starts at the
/// root, else `dir` and `rest` with one separator between them.
pub open spec fn joined(dir: Seq<char>, rest: Seq<char>) -> Seq<char> {
    if rest.len() > 0 && rest[0] == '/' {
        rest
    } else if dir.len() == 0 || dir.last() == '/' {
        dir + rest
    } else {
        dir + seq!['/'] + rest
    }
}

/// The path starts in the home directory.
pub open spec fn in_home(path: Seq<char>) -> bool {
    path.len() >= 2 && path[0] == '~' && path[1] == '/'
}

/// The path that a configured path stands for: one that starts with `~/` is
/// taken from the home directory, and needs one; any other stands for
/// itself.
pub open spec fn resolved_path(path: Seq<char>, home: Option<Seq<char>>) -> Result<
    Seq<char>,
    Failure,
> {
    if in_home(path) {
        match home {
            Some(dir) => Ok(joined(dir, path.skip(2))),
            None => Err(Failure::NoHome),
        }
    } else {
        Ok(path)
    }
}

/// What the configuration entry `config` of the pipe `name` amounts to: its
/// path and its default value, or the reason for which there is none.
pub open spec fn configured_fifo(name: Seq<char>, config: Node, home: Option<Seq<char>>) -> Result<
    (Seq<char>, Option<Seq<char>>),
    Failure,
> {
    match config {
        Node::Table(table) => match lookup_string(table@, "fifo_path"@) {
            Some(path) => match resolved_path(path, home) {
                Ok(resolved) => Ok((resolved, lookup_string(table@, "default"@))),
                Err(failure) => Err(failure),
            },
            None => Err(Failure::Missing(name, Some("fifo_path"@))),
        },
        _ => Err(Failure::Missing(name, None)),
    }
}

/// The home directory as a sequence of characters.
pub open spec fn home_view(home: Option<&str>) -> Option<Seq<char>> {
    match home {
        Some(dir) => Some(dir@),
        None => None,
    }
}

/// Joins a path to a directory.
fn join(dir: &str, rest: &str) -> (path: String)
    ensures
        path@ == joined(dir@, rest@),
{
    let rest_len = rest.unicode_len();
    if rest_len > 0 && rest.get_char(0) == '/' {
        return String::from_str(rest);
    }
    let dir_len = dir.unicode_len();
    let mut path = String::from_str(dir);
    if dir_len > 0 && dir.get_char(dir_len - 1) != '/' {
        proof {
            reveal_strlit("/");
            assert("/"@ =~= seq!['/']);
        }
        path.append("/");
    }
    path.append(rest);
    path
}

/// Parse a path - helper.
pub fn parse_path(path: &str, home: Option<&str>) -> (resolved: Result<String, ConfigError>)
    ensures
        match resolved_path(path@, home_view(home)) {
            Ok(text) => resolved matches Ok(p) && p@ == text,
            Err(failure) => resolved matches Err(e) && e@ == failure,
        },
{
    let len = path.unicode_len();
    if len >= 2 && path.get_char(0) == '~' && path.get_char(1) == '/' {
        match home {
            Some(dir) => {
                let rest = path.substring_char(2, len);
                assert(rest@ =~= path@.skip(2));
                Ok(join(dir, rest))
            },
            None => Err(ConfigError::NoHome),
        }
    } else {
        Ok(String::from_str(path))
    }
}

/// A FIFO source.
#[derive(Debug)]
pub struct Fifo {
    /// Path to FIFO.
    pub path: String,
    /// The output destination of the FIFO.
    pub id: usize,
    /// Default value used.
    pub default: Option<String>,
}

impl Fifo {
    /// The default value as a sequence of characters.
    pub open spec fn spec_default(&self) -> Option<Seq<char>> {
        match self.default {
            Some(text) => Some(text@),
            None => None,
        }
    }

    /// Parse a Fifo from a config structure. Paths that start with `~/` are
    /// taken from the home directory `home`.
    pub fn from_config(name: String, id: usize, config: &Node, home: Option<&str>) -> (fifo:
        Result<Fifo, ConfigError>)
        ensures
            match configured_fifo(name@, *config, home_view(home)) {
                Ok((path, default)) => fifo matches Ok(f) && f.id == id && f.path@ == path
                    && f.spec_default() == default,
                Err(failure) => fifo matches Err(e) && e@ == failure,
            },
    {
        match config {
            Node::Table(table) => {
                let path = match get_string(table, "fifo_path") {
                    Some(configured) => parse_path(configured.as_str(), home)?,
                    None => {
                        return Err(ConfigError::Missing(name, Some("fifo_path")));
                    },
                };
                let default = match get_string(table, "default") {
                    Some(text) => Some(text.clone()),
                    None => None,
                };
                Ok(Fifo { path, id, default })
            },
            _ => Err(ConfigError::Missing(name, None)),
        }
    }

    /// Takes the pipe into the set of polled descriptors, or leaves it out.
    ///
    /// `descriptor` is the descriptor under which the pipe was opened, or
    /// nothing where it could not be opened. An opened pipe gets a descriptor
    /// entry and an empty buffer at the end of the set, and its default
    /// value, if it has one, is returned as a batch to send at once. A pipe
    /// that could not be opened changes nothing: the other sources are not
    /// affected.
    pub fn attach(
        &self,
        descriptor: Option<i32>,
        fds: &mut Vec<PollFd>,
        buffers: &mut Vec<FileBuffer>,
    ) -> (first: Option<Message>)
        ensures
            descriptor.is_none() ==> first.is_none() && final(fds)@ == old(fds)@
                && final(buffers)@ == old(buffers)@,
            descriptor matches Some(fd) ==> {
                &&& final(fds)@.len() == old(fds)@.len() + 1
                &&& final(fds)@.drop_last() == old(fds)@
                &&& final(fds)@.last().fd == fd
                &&& final(fds)@.last().events != 0
                &&& final(fds)@.last().revents == 0
                &&& !final(fds)@.last().ready()
                &&& final(buffers)@.len() == old(buffers)@.len() + 1
                &&& final(buffers)@.drop_last() == old(buffers)@
                &&& final(buffers)@.last().fd == fd
                &&& final(buffers)@.last().id == self.id
                &&& final(buffers)@.last().pending@ == Seq::<u8>::empty()
                &&& match self.spec_default() {
                    Some(text) => first matches Some(batch) && batch_view(batch@) == seq![
                        (self.id, text),
                    ],
                    None => first.is_none(),
                }
            },
            old(fds)@.len() == old(buffers)@.len() && matched(old(fds)@, old(buffers)@)
                ==> final(fds)@.len() == final(buffers)@.len()
                && matched(final(fds)@, final(buffers)@),
    {
        match descriptor {
            None => None,
            Some(fd) => {
                fds.push(setup_pollfd(fd));
                buffers.push(FileBuffer::new(fd, self.id));
                assert(fds@.drop_last() =~= old(fds)@);
                assert(buffers@.drop_last() =~= old(buffers)@);
                match &self.default {
                    Some(text) => {
                        let mut batch: Message = Vec::with_capacity(1);
                        batch.push((self.id, text.clone()));
                        assert(batch_view(batch@) =~= seq![(self.id, text@)]);
                        Some(batch)
                    },
                    None => None,
                }
            },
        }
    }
}

/// The descriptor under which pipe `i` was opened; nothing where it could
/// not be opened, or where no outcome is given for it.
pub open spec fn descriptor_of(descriptors: Seq<Option<i32>>, i: int) -> Option<i32> {
    if 0 <= i < descriptors.len() {
        descriptors[i]
    } else {
        None
    }
}

/// The pipes among the first `n` that were opened, in order, each as its
/// descriptor and its key.
pub open spec fn attached(fifos: Seq<Fifo>, descriptors: Seq<Option<i32>>, n: int) -> Seq<
    (i32, usize),
>
    decreases n,
{
    if n <= 0 {
        Seq::empty()
    } else {
        match descriptor_of(descriptors, n - 1) {
            Some(fd) => attached(fifos, descriptors, n - 1).push((fd, fifos[n - 1].id)),
            None => attached(fifos, descriptors, n - 1),
        }
    }
}

/// The default values of the pipes among the first `n` that were opened and
/// have one, in order, each under its key.
pub open spec fn default_updates(fifos: Seq<Fifo>, descriptors: Seq<Option<i32>>, n: int) -> Seq<
    (usize, Seq<char>),
>
    decreases n,
{
    if n <= 0 {
        Seq::empty()
    } else {
        match (descriptor_of(descriptors, n - 1), fifos[n - 1].spec_default()) {
            (Some(_), Some(text)) => default_updates(fifos, descriptors, n - 1).push(
                (fifos[n - 1].id, text),
            ),
            _ => default_updates(fifos, descriptors, n - 1),
        }
    }
}

/// What is attached depends on the first `n` pipes only.
proof fn lemma_attached_of_prefix(
    fifos: Seq<Fifo>,
    descriptors: Seq<Option<i32>>,
    other_fifos: Seq<Fifo>,
    other_descriptors: Seq<Option<i32>>,
    n: int,
)
    requires
        forall|i: int|
            0 <= i < n ==> fifos[i] == other_fifos[i] && descriptor_of(descriptors, i)
                == descriptor_of(other_descriptors, i),
    ensures
        attached(fifos, descriptors, n) == attached(other_fifos, other_descriptors, n),
        default_updates(fifos, descriptors, n) == default_updates(
            other_fifos,
            other_descriptors,
            n,
        ),
    decreases n,
{
    if n > 0 {
        lemma_attached_of_prefix(fifos, descriptors, other_fifos, other_descriptors, n - 1);
    }
}

/// Isolation: a pipe that could not be opened leaves the set of polled
/// descriptors, and the default values sent, as they would be without that
/// pipe. The other pipes are attached all the same.
pub proof fn lemma_unopened_pipe_is_absent(
    fifos: Seq<Fifo>,
    descriptors: Seq<Option<i32>>,
    n: int,
    unopened: int,
)
    requires
        0 <= unopened < n,
        n <= fifos.len(),
        n <= descriptors.len(),
        descriptors[unopened].is_none(),
    ensures
        attached(fifos, descriptors, n) == attached(
            fifos.remove(unopened),
            descriptors.remove(unopened),
            n - 1,
        ),
        default_updates(fifos, descriptors, n) == default_updates(
            fifos.remove(unopened),
            descriptors.remove(unopened),
            n - 1,
        ),
    decreases n,
{
    let fewer_fifos = fifos.remove(unopened);
    let fewer_descriptors = descriptors.remove(unopened);
    if unopened == n - 1 {
        lemma_attached_of_prefix(fifos, descriptors, fewer_fifos, fewer_descriptors, n - 1);
    } else {
        lemma_unopened_pipe_is_absent(fifos, descriptors, n - 1, unopened);
        assert(fewer_fifos[n - 2] == fifos[n - 1]);
        assert(descriptor_of(fewer_descriptors, n - 2) == descriptor_of(descriptors, n - 1));
    }
}

/// The pipes that are polled: a descriptor entry and a buffer for each, side
/// by side, and the batches to send before the first wait.
#[derive(Debug)]
pub struct Polled {
    /// The descriptors to wait for.
    pub fds: Vec<PollFd>,
    /// The buffer of each descriptor.
    pub buffers: Vec<FileBuffer>,
    /// The default values of the pipes, one batch for each.
    pub defaults: Vec<Message>,
}

impl Polled {
    /// The descriptors and keys of the pipes that are polled, in order.
    pub open spec fn holds(&self, pipes: Seq<(i32, usize)>) -> bool {
        &&& self.fds@.len() == pipes.len()
        &&& self.buffers@.len() == pipes.len()
        &&& forall|k: int|
            0 <= k < pipes.len() ==> {
                &&& (#[trigger] self.fds@[k]).fd == pipes[k].0
                &&& self.fds@[k].events != 0
                &&& self.fds@[k].revents == 0
                &&& self.buffers@[k].fd == pipes[k].0
                &&& self.buffers@[k].id == pipes[k].1
                &&& self.buffers@[k].pending@ == Seq::<u8>::empty()
            }
    }

    /// The batches to send first: one update each, in order.
    pub open spec fn sends(&self, updates: Seq<(usize, Seq<char>)>) -> bool {
        &&& self.defaults@.len() == updates.len()
        &&& forall|k: int|
            0 <= k < updates.len() ==> batch_view((#[trigger] self.defaults@[k])@) == seq![
                updates[k],
            ]
    }
}

/// The pipes of one configuration, in registration order.
#[derive(Debug)]
pub struct FifoSet {
    fifos: Vec<Fifo>,
}

impl View for FifoSet {
    type V = Seq<Fifo>;

    closed spec fn view(&self) -> Seq<Fifo> {
        self.fifos@
    }
}

impl FifoSet {
    /// The set of the given pipes, in the given order.
    pub fn new(fifos: Vec<Fifo>) -> (set: FifoSet)
        ensures
            set@ == fifos@,
    {
        FifoSet { fifos }
    }

    /// Get the number of pipes.
    pub fn len(&self) -> (n: usize)
        ensures
            n == self@.len(),
    {
        self.fifos.len()
    }

    /// The pipe registered at `index`.
    pub fn get(&self, index: usize) -> (fifo: &Fifo)
        requires
            index < self@.len(),
        ensures
            *fifo == self@[index as int],
    {
        &self.fifos[index]
    }

    /// Sets up the polling of the pipes, given for each pipe the descriptor
    /// under which it was opened, or nothing where it could not be opened.
    ///
    /// Every pipe that was opened is polled, in registration order, with an
    /// empty buffer; its default value, if it has one, is a batch of its own
    /// to send before the first wait. A pipe that could not be opened is
    /// left out, and the others are not affected.
    pub fn run(&self, descriptors: &Vec<Option<i32>>) -> (polled: Polled)
        ensures
            polled.holds(attached(self@, descriptors@, self@.len() as int)),
            polled.sends(default_updates(self@, descriptors@, self@.len() as int)),
            matched(polled.fds@, polled.buffers@),
    {
        let n = self.fifos.len();
        let mut polled = Polled {
            fds: Vec::with_capacity(n),
            buffers: Vec::with_capacity(n),
            defaults: Vec::new(),
        };
        let mut i: usize = 0;
        while i < n
            invariant
                i <= n,
                n == self@.len(),
                polled.holds(attached(self@, descriptors@, i as int)),
                polled.sends(default_updates(self@, descriptors@, i as int)),
            decreases n - i,
        {
            let descriptor = if i < descriptors.len() {
                descriptors[i]
            } else {
                None
            };
            let ghost had = polled;
            let first = self.fifos[i].attach(descriptor, &mut polled.fds, &mut polled.buffers);
            if let Some(batch) = first {
                polled.defaults.push(batch);
            }
            proof {
                let pipes = attached(self@, descriptors@, i + 1);
                assert forall|k: int| 0 <= k < pipes.len() implies {
                    &&& (#[trigger] polled.fds@[k]).fd == pipes[k].0
                    &&& polled.fds@[k].events != 0
                    &&& polled.fds@[k].revents == 0
                    &&& polled.buffers@[k].fd == pipes[k].0
                    &&& polled.buffers@[k].id == pipes[k].1
                    &&& polled.buffers@[k].pending@ == Seq::<u8>::empty()
                } by {
                    if k < had.fds@.len() {
                        assert(polled.fds@[k] == had.fds@[k]);
                        assert(polled.buffers@[k] == had.buffers@[k]);
                    }
                }
                let updates = default_updates(self@, descriptors@, i + 1);
                assert forall|k: int| 0 <= k < updates.len() implies batch_view(
                    (#[trigger] polled.defaults@[k])@,
                ) == seq![updates[k]] by {
                    if k < had.defaults@.len() {
                        assert(polled.defaults@[k] == had.defaults@[k]);
                    }
                }
            }
            i += 1;
        }
        polled
    }

    /// The pipes, in registration order.
    pub fn into_fifos(self) -> (fifos: Vec<Fifo>)
        ensures
            fifos@ == self@,
    {
        self.fifos
    }
}

} // verus!
