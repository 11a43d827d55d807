//! Timer sources: a shell command run once per period.

use crate::error::ConfigError;
use crate::error::Failure;
use crate::poll::batch_view;
use crate::poll::Message;
use crate::schedule::all_due;
use crate::schedule::Scheduler;
use crate::text::read_record;
use crate::text::record_text;
use crate::value::get_integer;
use crate::value::get_string;
use crate::value::lookup_integer;
use crate::value::lookup_string;
use crate::value::Node;
use vstd::prelude::*;

verus! {

/// The period, in seconds, that the table of a timer asks for: the sum of
/// its seconds, minutes and hours, each of them zero where it is not given
/// as an integer.
pub open spec fn configured_period(table: Seq<(String, Node)>) -> int {
    lookup_integer(table, "seconds"@) + 60 * lookup_integer(table, "minutes"@) + 3600
        * lookup_integer(table, "hours"@)
}

/// What the configuration entry `config` of the timer `name` amounts to: the
/// period and the command of the timer, or the reason for which there is
/// none.
///
/// The entry has to be a table with a `command` string, and its period has
/// to be positive and to fit the machine's integers.
pub open spec fn configured_timer(name: Seq<char>, config: Node) -> Result<
    (int, Seq<char>),
    Failure,
> {
    match config {
        Node::Table(table) => match lookup_string(table@, "command"@) {
            Some(command) => if 0 < configured_period(table@) <= i64::MAX {
                Ok((configured_period(table@), command))
            } else {
                Err(Failure::IllegalValues(name))
            },
            None => Err(Failure::Missing(name, Some("command"@))),
        },
        _ => Err(Failure::Missing(name, None)),
    }
}

/// What there is to complain of after a command has run.
#[derive(Clone, Copy, Debug, PartialEq, Eq, Structural)]
pub enum Complaint {
    /// The command exited with a code other than zero.
    Exited(i32),
    /// The command was killed by a signal.
    Killed,
}

/// The complaint that the exit status of a command gives rise to; `code` is
/// its exit code, or nothing where a signal killed it.
pub open spec fn complaint_of(code: Option<i32>) -> Option<Complaint> {
    match code {
        Some(code) => if code == 0 {
            None
        } else {
            Some(Complaint::Exited(code))
        },
        None => Some(Complaint::Killed),
    }
}

/// A timer source.
#[derive(Debug)]
pub struct Timer {
    /// Time between invocations, in whole seconds; always positive.
    period: i64,
    /// The command line handed to the shell.
    command: String,
    /// The key under which the output is merged.
    id: usize,
}

impl Timer {
    #[verifier::type_invariant]
    spec fn positive_period(self) -> bool {
        self.period > 0
    }

    /// Seconds between invocations.
    pub closed spec fn spec_period(&self) -> int {
        self.period as int
    }

    /// The command line handed to the shell.
    pub closed spec fn spec_command(&self) -> Seq<char> {
        self.command@
    }

    /// The key under which the output is merged.
    pub closed spec fn spec_id(&self) -> usize {
        self.id
    }

    /// A timer that runs `command` every `period` seconds and reports under
    /// `id`; `None` unless the period is positive.
    pub fn new(id: usize, period: i64, command: String) -> (timer: Option<Timer>)
        ensures
            timer.is_some() == (period > 0),
            timer matches Some(t) ==> t.spec_id() == id && t.spec_period() == period
                && t.spec_command() == command@,
    {
        if period > 0 {
            Some(Timer { period, command, id })
        } else {
            None
        }
    }

    /// Parse a Timer from a config structure.
    pub fn from_config(name: String, id: usize, config: &Node) -> (timer: Result<
        Timer,
        ConfigError,
    >)
        ensures
            match configured_timer(name@, *config) {
                Ok((period, command)) => timer matches Ok(t) && t.spec_id() == id
                    && t.spec_period() == period && t.spec_command() == command,
                Err(failure) => timer matches Err(e) && e@ == failure,
            },
    {
        match config {
            Node::Table(table) => {
                let seconds = get_integer(table, "seconds");
                let minutes = get_integer(table, "minutes");
                let hours = get_integer(table, "hours");
                let command = match get_string(table, "command") {
                    Some(command) => command.clone(),
                    None => {
                        return Err(ConfigError::Missing(name, Some("command")));
                    },
                };
                let period: i128 = (seconds as i128) + 60 * (minutes as i128) + 3600 * (
                hours as i128);
                if 0 < period && period <= (i64::MAX as i128) {
                    Ok(Timer { period: period as i64, command, id })
                } else {
                    Err(ConfigError::IllegalValues(name))
                }
            },
            _ => Err(ConfigError::Missing(name, None)),
        }
    }

    /// The batch that one run of the command yields, given what it wrote to
    /// its standard output: one update, the output without its trailing
    /// newline, under the timer's key. There is none where the output is
    /// not valid UTF-8.
    pub fn update(&self, output: Vec<u8>) -> (batch: Option<Message>)
        ensures
            match record_text(output@) {
                Some(text) => batch matches Some(updates) && batch_view(updates@) == seq![
                    (self.spec_id(), text),
                ],
                None => batch.is_none(),
            },
    {
        match read_record(output) {
            Some(value) => {
                let mut updates: Message = Vec::with_capacity(1);
                updates.push((self.id, value));
                assert(batch_view(updates@) =~= seq![(self.id, value@)]);
                Some(updates)
            },
            None => None,
        }
    }

    /// Execute one iteration of the command: what follows from its outcome.
    ///
    /// `outcome` is nothing where the command could not be started; else it
    /// holds what the command wrote to its standard output, and its exit
    /// code, or no code where a signal killed it. A command that ran yields
    /// the batch of [`Timer::update`] for its output, whatever its exit
    /// status, and a complaint unless it exited with zero. A command that
    /// could not be started yields neither.
    pub fn execute(&self, outcome: Option<(Vec<u8>, Option<i32>)>) -> (result: (
        Option<Message>,
        Option<Complaint>,
    ))
        ensures
            match outcome {
                Some((output, code)) => {
                    &&& match record_text(output@) {
                        Some(text) => result.0 matches Some(updates) && batch_view(updates@)
                            == seq![(self.spec_id(), text)],
                        None => result.0.is_none(),
                    }
                    &&& result.1 == complaint_of(code)
                },
                None => result.0.is_none() && result.1.is_none(),
            },
    {
        match outcome {
            Some((output, code)) => {
                let complaint = match code {
                    Some(0) => None,
                    Some(code) => Some(Complaint::Exited(code)),
                    None => Some(Complaint::Killed),
                };
                (self.update(output), complaint)
            },
            None => (None, None),
        }
    }

    /// Seconds between invocations; always positive.
    pub fn period(&self) -> (p: i64)
        ensures
            p == self.spec_period(),
            p > 0,
    {
        proof {
            use_type_invariant(self);
        }
        self.period
    }

    /// The command line handed to the shell.
    pub fn command(&self) -> (c: &str)
        ensures
            c@ == self.spec_command(),
    {
        self.command.as_str()
    }

    /// The key under which the output is merged.
    pub fn id(&self) -> (id: usize)
        ensures
            id == self.spec_id(),
    {
        self.id
    }
}

/// The timers of one configuration, in registration order.
#[derive(Debug)]
pub struct TimerSet {
    timers: Vec<Timer>,
}

impl View for TimerSet {
    type V = Seq<Timer>;

    closed spec fn view(&self) -> Seq<Timer> {
        self.timers@
    }
}

impl TimerSet {
    /// The set of the given timers, in the given order.
    pub fn new(timers: Vec<Timer>) -> (set: TimerSet)
        ensures
            set@ == timers@,
    {
        TimerSet { timers }
    }

    /// The timers, in registration order.
    pub fn into_timers(self) -> (timers: Vec<Timer>)
        ensures
            timers@ == self@,
    {
        self.timers
    }

    /// Starts the timers: hands them to a scheduler in which every timer is
    /// due at once, at what the steady clock reads now.
    pub fn run(self) -> (scheduler: Scheduler)
        ensures
            scheduler.wf(),
            scheduler.timers() == self@,
            exists|now: u64| scheduler.dues() == #[trigger] all_due(self@.len(), now),
    {
        Scheduler::start(self)
    }

    /// Get the number of timers.
    pub fn len(&self) -> (n: usize)
        ensures
            n == self@.len(),
    {
        self.timers.len()
    }

    /// The timer registered at `index`.
    pub fn get(&self, index: usize) -> (timer: &Timer)
        requires
            index < self@.len(),
        ensures
            *timer == self@[index as int],
    {
        &self.timers[index]
    }
}

} // verus!
