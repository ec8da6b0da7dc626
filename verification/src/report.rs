//! Errors and command outcomes.
use vstd::prelude::*;

use crate::text::str_concat;

verus! {

/// A fatal failure of one command.
#[derive(Debug)]
pub enum EditError {
    /// The document is not well-formed; holds the parser's own diagnostic.
    Parse(String),
    /// A key exists but holds the wrong kind of node; holds the message
    /// naming the offending key.
    TypeConflict(String),
    /// A section, field or key needed by the operation is absent; holds the
    /// message naming it.
    NotFound(String),
    /// A structured value could not be decoded; holds the message.
    BadValue(String),
}

impl EditError {
    /// The diagnostic line of the error.
    pub fn message(&self) -> String {
        match self {
            EditError::Parse(s) => str_concat("Failed to parse manifest: ", s.as_str()),
            EditError::TypeConflict(s) => s.clone(),
            EditError::NotFound(s) => s.clone(),
            EditError::BadValue(s) => s.clone(),
        }
    }
}

/// What one command produced: its output lines, its advisory warnings, and
/// the text to write back, if the command decided to save.
#[derive(Debug)]
pub struct Outcome {
    /// Ordinary output, one line per entry.
    pub lines: Vec<String>,
    /// Advisory warnings, one line per entry.
    pub warnings: Vec<String>,
    /// The serialized document to write back to the manifest path; absent
    /// for read-only commands and dry runs.
    pub save: Option<String>,
}

impl Outcome {
    /// An outcome with nothing in it.
    pub fn new() -> (r: Outcome)
        ensures
            r.lines@ =~= Seq::<String>::empty(),
            r.warnings@ =~= Seq::<String>::empty(),
            r.save is None,
    {
        Outcome { lines: Vec::new(), warnings: Vec::new(), save: None }
    }

    /// Adds an output line unless `quiet` is set.
    pub fn say(&mut self, line: String, quiet: bool)
        ensures
            final(self).warnings == old(self).warnings,
            final(self).save == old(self).save,
            quiet ==> final(self).lines == old(self).lines,
            !quiet ==> final(self).lines@ == old(self).lines@.push(line),
    {
        if !quiet {
            self.lines.push(line);
        }
    }

    /// Adds an advisory warning.
    pub fn warn(&mut self, line: String)
        ensures
            final(self).lines == old(self).lines,
            final(self).save == old(self).save,
            final(self).warnings@ == old(self).warnings@.push(line),
    {
        self.warnings.push(line);
    }
}

} // verus!
