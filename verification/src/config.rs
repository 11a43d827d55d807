//! Config parser and interpreter.
//!
//! A configuration document names the output format, the timers and the
//! pipes. Every source gets a key: the timers are numbered from zero in the
//! order of their names, and the pipes follow them.

use crate::error::ConfigError;
use crate::error::Failure;
use crate::fifo::configured_fifo;
use crate::fifo::home_view;
use crate::fifo::Fifo;
use crate::fifo::FifoSet;
use crate::format::compile;
use crate::format::names_view;
use crate::format::normalized;
use crate::format::refusal;
use crate::format::Formatter;
use crate::merge::Merger;
use crate::merge::Phase;
use crate::timer::configured_timer;
use crate::timer::Timer;
use crate::timer::TimerSet;
use crate::value::error_text;
use crate::value::get_string;
use crate::value::get_table;
use crate::value::lookup_string;
use crate::value::lookup_table;
use crate::value::parse_document;
use crate::value::toml_document;
use crate::value::Node;
use vstd::prelude::*;

verus! {

/// The timers that the first `n` entries of a table amount to, each as its
/// period and its command, or the first reason for which an entry amounts to
/// none.
pub open spec fn planned_timers(table: Seq<(String, Node)>, n: int) -> Result<
    Seq<(int, Seq<char>)>,
    Failure,
>
    decreases n,
{
    if n <= 0 {
        Ok(Seq::empty())
    } else {
        match planned_timers(table, n - 1) {
            Ok(timers) => match configured_timer(table[n - 1].0@, table[n - 1].1) {
                Ok(timer) => Ok(timers.push(timer)),
                Err(failure) => Err(failure),
            },
            Err(failure) => Err(failure),
        }
    }
}

/// The pipes that the first `n` entries of a table amount to, each as its
/// path and its default value, or the first reason for which an entry
/// amounts to none.
pub open spec fn planned_fifos(table: Seq<(String, Node)>, n: int, home: Option<Seq<char>>)
    -> Result<Seq<(Seq<char>, Option<Seq<char>>)>, Failure>
    decreases n,
{
    if n <= 0 {
        Ok(Seq::empty())
    } else {
        match planned_fifos(table, n - 1, home) {
            Ok(fifos) => match configured_fifo(table[n - 1].0@, table[n - 1].1, home) {
                Ok(fifo) => Ok(fifos.push(fifo)),
                Err(failure) => Err(failure),
            },
            Err(failure) => Err(failure),
        }
    }
}

/// The table under `key`, or an empty one where the document has none.
pub open spec fn section(document: Seq<(String, Node)>, key: Seq<char>) -> Seq<(String, Node)> {
    match lookup_table(document, key) {
        Some(table) => table,
        None => Seq::empty(),
    }
}

/// The names of the entries of a table, in order.
pub open spec fn entry_names(table: Seq<(String, Node)>) -> Seq<Seq<char>> {
    table.map_values(|entry: (String, Node)| entry.0@)
}

/// What a configuration holds.
pub ghost struct Plan {
    /// The format, on one line.
    pub format: Seq<char>,
    /// The name of every source, by key.
    pub names: Seq<Seq<char>>,
    /// Period and command of every timer; timer `i` has the key `i`.
    pub timers: Seq<(int, Seq<char>)>,
    /// Path and default value of every pipe; pipe `j` has the key that
    /// follows those of the timers and of the pipes before it.
    pub fifos: Seq<(Seq<char>, Option<Seq<char>>)>,
}

/// What a document amounts to, given the home directory and the description
/// with which the compiler turned down the format, if it did.
///
/// The document needs a `format` string, which the compiler has to take.
/// Then come the entries of `timers`, then those of `fifos`; the first entry
/// that is not in order decides the failure.
pub open spec fn planned(
    document: Seq<(String, Node)>,
    home: Option<Seq<char>>,
    refused: Option<Seq<char>>,
) -> Result<Plan, Failure> {
    let timers = section(document, "timers"@);
    let fifos = section(document, "fifos"@);
    match lookup_string(document, "format"@) {
        None => Err(Failure::MissingFormat),
        Some(format) => match refused {
            Some(text) => Err(Failure::MustacheError(text)),
            None => match planned_timers(timers, timers.len() as int) {
                Err(failure) => Err(failure),
                Ok(planned_timers) => match planned_fifos(fifos, fifos.len() as int, home) {
                    Err(failure) => Err(failure),
                    Ok(planned_fifos) => Ok(
                        Plan {
                            format: normalized(format),
                            names: entry_names(timers) + entry_names(fifos),
                            timers: planned_timers,
                            fifos: planned_fifos,
                        },
                    ),
                },
            },
        },
    }
}

/// The timers are those of the plan, with the keys from zero on.
pub open spec fn timers_match(timers: Seq<Timer>, plan: Seq<(int, Seq<char>)>) -> bool {
    &&& timers.len() == plan.len()
    &&& forall|i: int|
        0 <= i < timers.len() ==> {
            &&& (#[trigger] timers[i]).spec_id() == i
            &&& timers[i].spec_period() == plan[i].0
            &&& timers[i].spec_command() == plan[i].1
        }
}

/// The pipes are those of the plan, with the keys from `first` on.
pub open spec fn fifos_match(
    fifos: Seq<Fifo>,
    plan: Seq<(Seq<char>, Option<Seq<char>>)>,
    first: int,
) -> bool {
    &&& fifos.len() == plan.len()
    &&& forall|j: int|
        0 <= j < fifos.len() ==> {
            &&& (#[trigger] fifos[j]).id == first + j
            &&& fifos[j].path@ == plan[j].0
            &&& fifos[j].spec_default() == plan[j].1
        }
}

/// Config data.
///
/// Holds a number of input sources as well as the output format.
#[derive(Debug)]
pub struct Config {
    /// Compiled format template, and a mapping from key to input name.
    format: Formatter,
    /// All timer sources.
    timers: TimerSet,
    /// All FIFO sources.
    fifos: FifoSet,
}

impl Config {
    /// The output format and the names of the sources.
    pub closed spec fn formatter(&self) -> Formatter {
        self.format
    }

    /// All timer sources.
    pub closed spec fn timers(&self) -> Seq<Timer> {
        self.timers@
    }

    /// All FIFO sources.
    pub closed spec fn fifos(&self) -> Seq<Fifo> {
        self.fifos@
    }

    /// The configuration holds what the plan says.
    pub open spec fn follows(&self, plan: Plan) -> bool {
        &&& self.formatter().spec_format() == plan.format
        &&& self.formatter().spec_names() == plan.names
        &&& timers_match(self.timers(), plan.timers)
        &&& fifos_match(self.fifos(), plan.fifos, plan.timers.len() as int)
    }

    /// No two sources of a configuration share a key, and every key has a
    /// name: the timers hold the keys from zero on, the pipes those that
    /// follow.
    pub proof fn lemma_keys_unique(
        &self,
        document: Seq<(String, Node)>,
        home: Option<Seq<char>>,
        refused: Option<Seq<char>>,
    )
        requires
            planned(document, home, refused) is Ok,
            self.follows(planned(document, home, refused)->Ok_0),
        ensures
            self.formatter().spec_names().len() == self.timers().len() + self.fifos().len(),
            forall|i: int|
                0 <= i < self.timers().len() ==> (#[trigger] self.timers()[i]).spec_id() == i,
            forall|j: int|
                0 <= j < self.fifos().len() ==> (#[trigger] self.fifos()[j]).id
                    == self.timers().len() + j,
    {
        let timers = section(document, "timers"@);
        let fifos = section(document, "fifos"@);
        lemma_planned_timers_len(timers, timers.len() as int);
        lemma_planned_fifos_len(fifos, fifos.len() as int, home);
    }

    /// Number of sources.
    pub fn count(&self) -> (n: usize)
        ensures
            n == self.formatter().spec_names().len(),
    {
        self.format.get_names().len()
    }

    /// Run with the given configuration: hands out an idle merge loop for
    /// all sources, none of which has reported yet, and the timers and the
    /// pipes, which feed it.
    pub fn run(self) -> (parts: (Merger, TimerSet, FifoSet))
        ensures
            parts.0.formatter() == self.formatter(),
            parts.0.values() == Seq::new(
                self.formatter().spec_names().len(),
                |i: int| None::<Seq<char>>,
            ),
            parts.0.phase() == Phase::Idle,
            parts.0.shown().is_none(),
            parts.1@ == self.timers(),
            parts.2@ == self.fifos(),
    {
        let count = self.count();
        (Merger::new(self.format, count), self.timers, self.fifos)
    }

    /// Hands out the parts: the format with the names, the timers and the
    /// pipes.
    pub fn into_parts(self) -> (parts: (Formatter, TimerSet, FifoSet))
        ensures
            parts.0 == self.formatter(),
            parts.1@ == self.timers(),
            parts.2@ == self.fifos(),
    {
        (self.format, self.timers, self.fifos)
    }

    /// Interprets a document, given the home directory and the outcome
    /// `compiled` of compiling its format; `compiled` is not looked at where
    /// the document has no format.
    pub fn assemble(
        document: &Vec<(String, Node)>,
        home: Option<&str>,
        compiled: Result<mustache::Template, String>,
    ) -> (config: Result<Config, ConfigError>)
        ensures
            match planned(document@, home_view(home), refusal(compiled)) {
                Ok(plan) => config matches Ok(c) && c.follows(plan) && (compiled matches Ok(
                    template,
                ) && c.formatter().spec_template() == template),
                Err(failure) => config matches Err(e) && e@ == failure,
            },
    {
        let line = match get_string(document, "format") {
            Some(format) => Formatter::normalize(format.as_str()),
            None => {
                return Err(ConfigError::MissingFormat);
            },
        };
        let template = match compiled {
            Ok(template) => template,
            Err(text) => {
                return Err(ConfigError::MustacheError(text));
            },
        };
        let mut names: Vec<String> = Vec::new();
        let ghost timer_table = section(document@, "timers"@);
        let ghost fifo_table = section(document@, "fifos"@);
        let timers = match get_table(document, "timers") {
            Some(table) => read_timers(table, &mut names)?,
            None => {
                assert(names_view(names@) =~= entry_names(timer_table));
                Vec::new()
            },
        };
        assert(planned_timers(timer_table, timer_table.len() as int) is Ok);
        assert(timers_match(timers@, planned_timers(timer_table, timer_table.len() as int)->Ok_0));
        assert(timers@.len() == timer_table.len());
        assert(names_view(names@) == entry_names(timer_table));
        let ghost noted = names@;
        let fifos = match get_table(document, "fifos") {
            Some(table) => read_fifos(table, home, &mut names)?,
            None => {
                assert(names_view(names@) + entry_names(fifo_table) =~= names_view(names@));
                Vec::new()
            },
        };
        assert(names_view(names@) == entry_names(timer_table) + entry_names(fifo_table));
        assert(noted.len() == timer_table.len());
        let format = Formatter::with_template(line, Ok(template), names)?;
        Ok(Config { format, timers: TimerSet::new(timers), fifos: FifoSet::new(fifos) })
    }

    /// Interprets a document: looks for its format, has it compiled, and
    /// goes through its timers and pipes.
    ///
    /// A document without a format fails for that reason. For any other the
    /// outcome is what [`Config::assemble`] gives for the compiler's answer,
    /// whatever that is.
    pub fn from_table(document: &Vec<(String, Node)>, home: Option<&str>) -> (config: Result<
        Config,
        ConfigError,
    >)
        ensures
            exists|refused: Option<Seq<char>>|
                match #[trigger] planned(document@, home_view(home), refused) {
                    Ok(plan) => config matches Ok(c) && c.follows(plan),
                    Err(failure) => config matches Err(e) && e@ == failure,
                },
            lookup_string(document@, "format"@).is_none() ==> (config matches Err(e) && e@
                == Failure::MissingFormat),
    {
        let compiled = match get_string(document, "format") {
            Some(format) => {
                let line = Formatter::normalize(format.as_str());
                compile(line.as_str())
            },
            None => Err(String::new()),
        };
        let config = Config::assemble(document, home, compiled);
        assert(match planned(document@, home_view(home), refusal(compiled)) {
            Ok(plan) => config matches Ok(c) && c.follows(plan),
            Err(failure) => config matches Err(e) && e@ == failure,
        });
        config
    }

    /// Parse the text of a config file and return a result.
    ///
    /// A text that is no TOML document, or one whose top level is no table,
    /// fails as such. For any other the outcome is that of
    /// [`Config::from_table`] on its top-level table.
    pub fn from_config_file(content: &str, home: Option<&str>) -> (config: Result<
        Config,
        ConfigError,
    >)
        ensures
            match toml_document(content@) {
                None => config matches Err(e) && e@ is TomlError,
                Some(Node::Table(document)) => exists|refused: Option<Seq<char>>|
                    match #[trigger] planned(document@, home_view(home), refused) {
                        Ok(plan) => config matches Ok(c) && c.follows(plan),
                        Err(failure) => config matches Err(e) && e@ == failure,
                    },
                Some(_) => config matches Err(e) && e@ == Failure::TomlNotTable,
            },
    {
        let document = parse_config_file(content)?;
        Config::from_table(&document, home)
    }
}

/// Parse the text of a configuration file - helper. Hands back the
/// top-level table of the document.
pub fn parse_config_file(content: &str) -> (document: Result<Vec<(String, Node)>, ConfigError>)
    ensures
        match toml_document(content@) {
            None => document matches Err(e) && e@ is TomlError,
            Some(Node::Table(table)) => document == Ok::<Vec<(String, Node)>, ConfigError>(table),
            Some(_) => document matches Err(e) && e@ == Failure::TomlNotTable,
        },
{
    match parse_document(content) {
        Ok(Node::Table(table)) => Ok(table),
        Ok(_) => Err(ConfigError::TomlNotTable),
        Err(error) => Err(ConfigError::TomlError(error_text(&error))),
    }
}

/// Reads the timers of a table, in order, and notes their names; the key of
/// a timer is its position.
fn read_timers(table: &Vec<(String, Node)>, names: &mut Vec<String>) -> (timers: Result<
    Vec<Timer>,
    ConfigError,
>)
    requires
        old(names)@.len() == 0,
    ensures
        match planned_timers(table@, table@.len() as int) {
            Ok(plan) => timers matches Ok(read) && timers_match(read@, plan) && read@.len()
                == table@.len() && names_view(final(names)@) == entry_names(table@),
            Err(failure) => timers matches Err(e) && e@ == failure,
        },
{
    let mut timers: Vec<Timer> = Vec::new();
    let mut i: usize = 0;
    assert(names_view(names@) =~= entry_names(table@).take(0));
    while i < table.len()
        invariant
            i <= table.len(),
            names@.len() == i,
            timers@.len() == i,
            names_view(names@) == entry_names(table@).take(i as int),
            planned_timers(table@, i as int) is Ok,
            timers_match(timers@, planned_timers(table@, i as int)->Ok_0),
        decreases table.len() - i,
    {
        let name = table[i].0.clone();
        let ghost had = names@;
        let ghost read = timers@;
        names.push(name.clone());
        match Timer::from_config(name, i, &table[i].1) {
            Ok(timer) => {
                timers.push(timer);
                proof {
                    let plan = planned_timers(table@, i + 1)->Ok_0;
                    assert forall|k: int| 0 <= k < timers@.len() implies {
                        &&& (#[trigger] timers@[k]).spec_id() == k
                        &&& timers@[k].spec_period() == plan[k].0
                        &&& timers@[k].spec_command() == plan[k].1
                    } by {
                        if k < i {
                            assert(timers@[k] == read[k]);
                        }
                    }
                }
            },
            Err(error) => {
                proof {
                    lemma_timers_fail_on(table@, i as int, table@.len() as int);
                }
                return Err(error);
            },
        }
        assert(names_view(names@) =~= entry_names(table@).take(i + 1)) by {
            assert(names@ == had.push(table@[i as int].0));
        }
        i += 1;
    }
    assert(entry_names(table@).take(table@.len() as int) =~= entry_names(table@));
    Ok(timers)
}

/// Reads the pipes of a table, in order, and notes their names behind those
/// noted before; the key of a pipe is the position of its name.
fn read_fifos(table: &Vec<(String, Node)>, home: Option<&str>, names: &mut Vec<String>) -> (fifos:
    Result<Vec<Fifo>, ConfigError>)
    ensures
        match planned_fifos(table@, table@.len() as int, home_view(home)) {
            Ok(plan) => fifos matches Ok(read) && fifos_match(
                read@,
                plan,
                old(names)@.len() as int,
            ) && names_view(final(names)@) == names_view(old(names)@) + entry_names(table@),
            Err(failure) => fifos matches Err(e) && e@ == failure,
        },
{
    let mut fifos: Vec<Fifo> = Vec::new();
    let mut j: usize = 0;
    let count = names.len();
    assert(names_view(names@) =~= names_view(old(names)@) + entry_names(table@).take(0));
    while j < table.len()
        invariant
            j <= table.len(),
            count == old(names)@.len(),
            names@.len() == count + j,
            fifos@.len() == j,
            names_view(names@) == names_view(old(names)@) + entry_names(table@).take(j as int),
            planned_fifos(table@, j as int, home_view(home)) is Ok,
            fifos_match(
                fifos@,
                planned_fifos(table@, j as int, home_view(home))->Ok_0,
                count as int,
            ),
        decreases table.len() - j,
    {
        let name = table[j].0.clone();
        let id = names.len();
        let ghost had = names@;
        let ghost read = fifos@;
        names.push(name.clone());
        match Fifo::from_config(name, id, &table[j].1, home) {
            Ok(fifo) => {
                fifos.push(fifo);
                proof {
                    let plan = planned_fifos(table@, j + 1, home_view(home))->Ok_0;
                    assert forall|k: int| 0 <= k < fifos@.len() implies {
                        &&& (#[trigger] fifos@[k]).id == count + k
                        &&& fifos@[k].path@ == plan[k].0
                        &&& fifos@[k].spec_default() == plan[k].1
                    } by {
                        if k < j {
                            assert(fifos@[k] == read[k]);
                        }
                    }
                }
            },
            Err(error) => {
                proof {
                    lemma_fifos_fail_on(table@, j as int, table@.len() as int, home_view(home));
                }
                return Err(error);
            },
        }
        proof {
            assert(names@ == had.push(table@[j as int].0));
            assert(names_view(names@) =~= names_view(had).push(table@[j as int].0@));
            assert(entry_names(table@).take(j + 1) =~= entry_names(table@).take(j as int).push(
                table@[j as int].0@,
            ));
            assert(names_view(names@) =~= names_view(old(names)@) + entry_names(table@).take(
                j + 1,
            ));
        }
        j += 1;
    }
    assert(entry_names(table@).take(table@.len() as int) =~= entry_names(table@));
    Ok(fifos)
}

/// A table that amounts to timers amounts to one timer for each entry.
proof fn lemma_planned_timers_len(table: Seq<(String, Node)>, n: int)
    requires
        0 <= n,
    ensures
        planned_timers(table, n) matches Ok(timers) ==> timers.len() == n,
    decreases n,
{
    if n > 0 {
        lemma_planned_timers_len(table, n - 1);
    }
}

/// A table that amounts to pipes amounts to one pipe for each entry.
proof fn lemma_planned_fifos_len(table: Seq<(String, Node)>, n: int, home: Option<Seq<char>>)
    requires
        0 <= n,
    ensures
        planned_fifos(table, n, home) matches Ok(fifos) ==> fifos.len() == n,
    decreases n,
{
    if n > 0 {
        lemma_planned_fifos_len(table, n - 1, home);
    }
}

/// A table whose entry `i` amounts to no timer, after entries that all do,
/// fails for the reason of entry `i`, however many entries follow.
proof fn lemma_timers_fail_on(table: Seq<(String, Node)>, i: int, n: int)
    requires
        0 <= i < n,
        planned_timers(table, i) is Ok,
        configured_timer(table[i].0@, table[i].1) is Err,
    ensures
        planned_timers(table, n) == Err::<Seq<(int, Seq<char>)>, Failure>(
            configured_timer(table[i].0@, table[i].1)->Err_0,
        ),
    decreases n,
{
    if n > i + 1 {
        lemma_timers_fail_on(table, i, n - 1);
    }
}

/// A table whose entry `j` amounts to no pipe, after entries that all do,
/// fails for the reason of entry `j`, however many entries follow.
proof fn lemma_fifos_fail_on(table: Seq<(String, Node)>, j: int, n: int, home: Option<Seq<char>>)
    requires
        0 <= j < n,
        planned_fifos(table, j, home) is Ok,
        configured_fifo(table[j].0@, table[j].1, home) is Err,
    ensures
        planned_fifos(table, n, home) == Err::<Seq<(Seq<char>, Option<Seq<char>>)>, Failure>(
            configured_fifo(table[j].0@, table[j].1, home)->Err_0,
        ),
    decreases n,
{
    if n > j + 1 {
        lemma_fifos_fail_on(table, j, n - 1, home);
    }
}

} // verus!
