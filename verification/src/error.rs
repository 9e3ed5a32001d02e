//! The build's error taxonomy. Every error is fatal: it unwinds to the
//! top of the run, there is no local recovery.

use vstd::prelude::*;

verus! {

/// Why a build step failed.
#[derive(Debug)]
pub enum GeneratorError {
    /// A file or directory could not be read or written.
    Io(String),
    /// A document (YAML, front matter) could not be parsed.
    Parse(String),
    /// The configuration is missing or holds an unusable entry.
    Config(String),
    /// A path query expression is malformed.
    Query(String),
    /// A template could not be rendered, or demanded a missing field.
    Render(String),
    /// Any other failure.
    Error(String),
}

impl GeneratorError {
    /// The error's text.
    pub fn message(&self) -> (r: &String)
        ensures
            r@ == self.message_spec(),
    {
        match self {
            GeneratorError::Io(s) => s,
            GeneratorError::Parse(s) => s,
            GeneratorError::Config(s) => s,
            GeneratorError::Query(s) => s,
            GeneratorError::Render(s) => s,
            GeneratorError::Error(s) => s,
        }
    }

    /// The taxonomy name of the error's kind.
    pub fn kind_name(&self) -> (r: &'static str)
        ensures
            r@ == self.kind_name_spec(),
    {
        match self {
            GeneratorError::Io(_) => "i/o error",
            GeneratorError::Parse(_) => "parse error",
            GeneratorError::Config(_) => "configuration error",
            GeneratorError::Query(_) => "query error",
            GeneratorError::Render(_) => "render error",
            GeneratorError::Error(_) => "error",
        }
    }

    /// The name of the error's kind.
    pub open spec fn kind_name_spec(&self) -> Seq<char> {
        match self {
            GeneratorError::Io(_) => "i/o error"@,
            GeneratorError::Parse(_) => "parse error"@,
            GeneratorError::Config(_) => "configuration error"@,
            GeneratorError::Query(_) => "query error"@,
            GeneratorError::Render(_) => "render error"@,
            GeneratorError::Error(_) => "error"@,
        }
    }

    /// The text carried by the error.
    pub open spec fn message_spec(&self) -> Seq<char> {
        match self {
            GeneratorError::Io(s) => s@,
            GeneratorError::Parse(s) => s@,
            GeneratorError::Config(s) => s@,
            GeneratorError::Query(s) => s@,
            GeneratorError::Render(s) => s@,
            GeneratorError::Error(s) => s@,
        }
    }
}

} // verus!
