//! The output format and the names under which it refers to the sources.

use crate::error::ConfigError;
use crate::error::Failure;
use crate::render::RenderState;
use crate::render::Values;
use vstd::prelude::*;
use vstd::string::StringExecFns;

verus! {

/// The format as it is compiled: on one line, with a newline at its end.
pub open spec fn normalized(format: Seq<char>) -> Seq<char> {
    format.filter(|c: char| c != '\n') + seq!['\n']
}

/// The names of the first `n` sources that have reported, each with the
/// latest value of its source: what the renderer is given.
pub open spec fn bound(names: Seq<Seq<char>>, values: Values, n: int) -> Seq<
    (Seq<char>, Seq<char>),
>
    decreases n,
{
    if n <= 0 {
        Seq::empty()
    } else {
        match values[n - 1] {
            Some(value) => bound(names, values, n - 1).push((names[n - 1], value)),
            None => bound(names, values, n - 1),
        }
    }
}

/// Rendering twice without an update in between is rendering the same
/// thing: what the renderer is given depends on the names and the values
/// only.
pub proof fn lemma_same_values_same_bindings(names: Seq<Seq<char>>, first: Values, second: Values)
    requires
        first == second,
    ensures
        bound(names, first, named(names, first)) == bound(names, second, named(names, second)),
{
}

/// The number of sources that have both a name and a key.
pub open spec fn named(names: Seq<Seq<char>>, values: Values) -> int {
    if names.len() <= values.len() {
        names.len() as int
    } else {
        values.len() as int
    }
}

/// Names as sequences of characters.
pub open spec fn names_view(names: Seq<String>) -> Seq<Seq<char>> {
    names.map_values(|name: String| name@)
}

/// Pairs of texts as pairs of sequences of characters.
pub open spec fn pairs_view(pairs: Seq<(String, String)>) -> Seq<(Seq<char>, Seq<char>)> {
    pairs.map_values(|pair: (String, String)| (pair.0@, pair.1@))
}

/// Removes every newline through `str::replace`, which replaces each match
/// of its pattern, here by nothing, and keeps the rest in order.
#[verifier::external_body]
fn without_newlines(text: &str) -> (out: String)
    ensures
        out@ == text@.filter(|c: char| c != '\n'),
{
    text.replace('\n', "")
}

/// `mustache::Template`, a compiled format; it is kept for the renderer,
/// and nothing of it is looked into here.
#[verifier::external_type_specification]
#[verifier::external_body]
pub struct ExTemplate(mustache::Template);

/// Compiles a format through `mustache::compile_str`; a failure comes back
/// as its description. Nothing is claimed of the outcome: a format may name
/// partial templates, which the compiler looks for in files.
#[verifier::external_body]
pub(crate) fn compile(format: &str) -> (compiled: Result<mustache::Template, String>) {
    mustache::compile_str(format).map_err(|error| error.to_string())
}

/// The description with which the compiler turned the format down, if it
/// did.
pub open spec fn refusal(compiled: Result<mustache::Template, String>) -> Option<Seq<char>> {
    match compiled {
        Ok(_) => None,
        Err(text) => Some(text@),
    }
}

/// The output format, compiled, and the name of every source by its key.
#[derive(Debug)]
pub struct Formatter {
    template: mustache::Template,
    format: String,
    names: Vec<String>,
}

impl Formatter {
    /// The format as it is compiled.
    pub closed spec fn spec_format(&self) -> Seq<char> {
        self.format@
    }

    /// The name of every source, by key.
    pub closed spec fn spec_names(&self) -> Seq<Seq<char>> {
        names_view(self.names@)
    }

    /// The compiled format.
    pub closed spec fn spec_template(&self) -> mustache::Template {
        self.template
    }

    /// Puts a format on one line, with a newline at its end.
    pub fn normalize(format: &str) -> (line: String)
        ensures
            line@ == normalized(format@),
    {
        let mut line = without_newlines(format);
        proof {
            reveal_strlit("\n");
            assert("\n"@ =~= seq!['\n']);
        }
        line.append("\n");
        line
    }

    /// A formatter for a format that was put on one line and handed to the
    /// compiler, with the outcome `compiled`, and for the given names. There
    /// is one exactly where the compiler took the format.
    pub fn with_template(
        line: String,
        compiled: Result<mustache::Template, String>,
        names: Vec<String>,
    ) -> (formatter: Result<Formatter, ConfigError>)
        ensures
            match compiled {
                Ok(template) => formatter matches Ok(f) && f.spec_template() == template
                    && f.spec_format() == line@ && f.spec_names() == names_view(names@),
                Err(text) => formatter matches Err(e) && e@ == Failure::MustacheError(text@),
            },
    {
        match compiled {
            Ok(template) => Ok(Formatter { template, format: line, names }),
            Err(text) => Err(ConfigError::MustacheError(text)),
        }
    }

    /// A formatter for the given format, which is put on one line and
    /// compiled, and for the given names. Whether the compiler takes the
    /// format is the compiler's to say.
    pub fn new(format: &str, names: Vec<String>) -> (formatter: Result<Formatter, ConfigError>)
        ensures
            match formatter {
                Ok(f) => f.spec_format() == normalized(format@) && f.spec_names() == names_view(
                    names@,
                ),
                Err(e) => e@ is MustacheError,
            },
    {
        let line = Formatter::normalize(format);
        let compiled = compile(line.as_str());
        Formatter::with_template(line, compiled, names)
    }

    /// The compiled format, for the renderer.
    pub fn template(&self) -> (template: &mustache::Template)
        ensures
            *template == self.spec_template(),
    {
        &self.template
    }

    /// The format as it is compiled.
    pub fn format(&self) -> (format: &str)
        ensures
            format@ == self.spec_format(),
    {
        self.format.as_str()
    }

    /// The names of the sources, in the order of their keys.
    pub fn get_names(&self) -> (names: Vec<&str>)
        ensures
            names@.len() == self.spec_names().len(),
            forall|i: int| 0 <= i < names@.len() ==> (#[trigger] names@[i])@ == self.spec_names()[i],
    {
        let mut names: Vec<&str> = Vec::with_capacity(self.names.len());
        let mut i: usize = 0;
        while i < self.names.len()
            invariant
                i <= self.names@.len(),
                names@.len() == i,
                forall|j: int| 0 <= j < i ==> (#[trigger] names@[j])@ == self.names@[j]@,
            decreases self.names@.len() - i,
        {
            names.push(self.names[i].as_str());
            i += 1;
        }
        names
    }

    /// What the renderer is given for the state: the name of every source
    /// that has reported, with its latest value, in the order of the keys.
    pub fn bindings(&self, state: &RenderState) -> (pairs: Vec<(String, String)>)
        ensures
            pairs_view(pairs@) == bound(
                self.spec_names(),
                state@,
                named(self.spec_names(), state@),
            ),
    {
        let n = if self.names.len() <= state.len() {
            self.names.len()
        } else {
            state.len()
        };
        let mut pairs: Vec<(String, String)> = Vec::with_capacity(n);
        let mut i: usize = 0;
        assert(pairs_view(pairs@) =~= Seq::empty());
        while i < n
            invariant
                i <= n,
                n == named(self.spec_names(), state@),
                pairs_view(pairs@) == bound(self.spec_names(), state@, i as int),
            decreases n - i,
        {
            let ghost had = pairs@;
            if let Some(value) = state.get(i) {
                let name = self.names[i].clone();
                let value = String::from_str(value);
                pairs.push((name, value));
                assert(pairs_view(pairs@) =~= pairs_view(had).push((name@, value@)));
            }
            i += 1;
        }
        pairs
    }
}

} // verus!
