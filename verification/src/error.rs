//! Errors found while a configuration is set up.

use vstd::prelude::*;
use vstd::string::StringExecFns;

verus! {

/// An error that occured during setup.
#[derive(Debug)]
pub enum ConfigError {
    /// I/O error occured; holds its description.
    IOError(String),
    /// The file could not be parsed; holds the parser's description.
    TomlError(String),
    /// The TOML tree does not consist of a toplevel table.
    TomlNotTable,
    /// No format is specified in file.
    MissingFormat,
    /// Mustache template could not be parsed; holds the compiler's
    /// description.
    MustacheError(String),
    /// Some value is missing.
    Missing(String, Option<&'static str>),
    /// A timer is malformatted.
    IllegalValues(String),
    /// No home directory was found.
    NoHome,
}

/// What a [`ConfigError`] says, with every text as a sequence of characters.
pub enum Failure {
    IOError(Seq<char>),
    TomlError(Seq<char>),
    TomlNotTable,
    MissingFormat,
    MustacheError(Seq<char>),
    Missing(Seq<char>, Option<Seq<char>>),
    IllegalValues(Seq<char>),
    NoHome,
}

impl View for ConfigError {
    type V = Failure;

    open spec fn view(&self) -> Failure {
        match *self {
            ConfigError::IOError(text) => Failure::IOError(text@),
            ConfigError::TomlError(text) => Failure::TomlError(text@),
            ConfigError::TomlNotTable => Failure::TomlNotTable,
            ConfigError::MissingFormat => Failure::MissingFormat,
            ConfigError::MustacheError(text) => Failure::MustacheError(text@),
            ConfigError::Missing(name, Some(child)) => Failure::Missing(name@, Some(child@)),
            ConfigError::Missing(name, None) => Failure::Missing(name@, None),
            ConfigError::IllegalValues(name) => Failure::IllegalValues(name@),
            ConfigError::NoHome => Failure::NoHome,
        }
    }
}

impl ConfigError {
    /// The text that describes the error to the user.
    pub open spec fn spec_message(self) -> Seq<char> {
        match self {
            ConfigError::IOError(text) => "I/O error occured: "@ + text@,
            ConfigError::TomlError(text) => "TOML parsing failed: "@ + text@,
            ConfigError::TomlNotTable => "TOML not consisting of a toplevel table"@,
            ConfigError::MissingFormat => "no `format` list found"@,
            ConfigError::MustacheError(text) => "format could not be parsed: "@ + text@,
            ConfigError::Missing(name, Some(child)) => "entity `"@ + name@
                + "` is missing child `"@ + child@ + "` (or it has the wrong type)"@,
            ConfigError::Missing(name, None) => "entity `"@ + name@
                + "` is missing (or it has the wrong type)"@,
            ConfigError::IllegalValues(name) => "timer `"@ + name@
                + "` doesn't have a positive period"@,
            ConfigError::NoHome => "no home directory found"@,
        }
    }

    /// The text that describes the error to the user.
    pub fn message(&self) -> (text: String)
        ensures
            text@ == self.spec_message(),
    {
        match self {
            ConfigError::IOError(text) => {
                let mut out = String::from_str("I/O error occured: ");
                out.append(text.as_str());
                out
            },
            ConfigError::TomlError(text) => {
                let mut out = String::from_str("TOML parsing failed: ");
                out.append(text.as_str());
                out
            },
            ConfigError::TomlNotTable => String::from_str(
                "TOML not consisting of a toplevel table",
            ),
            ConfigError::MissingFormat => String::from_str("no `format` list found"),
            ConfigError::MustacheError(text) => {
                let mut out = String::from_str("format could not be parsed: ");
                out.append(text.as_str());
                out
            },
            ConfigError::Missing(name, Some(child)) => {
                let mut out = String::from_str("entity `");
                out.append(name.as_str());
                out.append("` is missing child `");
                out.append(child);
                out.append("` (or it has the wrong type)");
                out
            },
            ConfigError::Missing(name, None) => {
                let mut out = String::from_str("entity `");
                out.append(name.as_str());
                out.append("` is missing (or it has the wrong type)");
                out
            },
            ConfigError::IllegalValues(name) => {
                let mut out = String::from_str("timer `");
                out.append(name.as_str());
                out.append("` doesn't have a positive period");
                out
            },
            ConfigError::NoHome => String::from_str("no home directory found"),
        }
    }
}

} // verus!
