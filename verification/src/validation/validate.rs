//! The outcome of a validation: warnings and errors, and whether it passed.

use vstd::prelude::*;
use vstd::string::StringExecFns;

verus! {

/// What a validation found.
#[derive(Debug, Default)]
pub struct ValidationResult {
    /// Whether no error was found.
    pub passed: bool,
    /// The warnings, in the order found.
    pub warnings: Vec<String>,
    /// The errors, in the order found.
    pub errors: Vec<String>,
}

/// The texts of a list of messages.
pub open spec fn message_texts(messages: Seq<String>) -> Seq<Seq<char>> {
    messages.map_values(|m: String| m@)
}

impl ValidationResult {
    /// The result is consistent: it passed just if it holds no error.
    pub open spec fn wf(&self) -> bool {
        self.passed == (self.errors.len() == 0)
    }

    /// The texts of the warnings.
    pub open spec fn warning_texts(&self) -> Seq<Seq<char>> {
        message_texts(self.warnings@)
    }

    /// The texts of the errors.
    pub open spec fn error_texts(&self) -> Seq<Seq<char>> {
        message_texts(self.errors@)
    }

    /// A result that passed, with nothing found.
    pub fn ok() -> (r: ValidationResult)
        ensures
            r.passed,
            r.warnings@.len() == 0,
            r.errors@.len() == 0,
            r.wf(),
    {
        ValidationResult { passed: true, warnings: Vec::new(), errors: Vec::new() }
    }

    /// A result that failed with one error.
    pub fn error(message: &str) -> (r: ValidationResult)
        ensures
            !r.passed,
            r.warnings@.len() == 0,
            r.error_texts() == seq![message@],
            r.wf(),
    {
        let mut errors: Vec<String> = Vec::new();
        errors.push(String::from_str(message));
        assert(message_texts(errors@) =~= seq![message@]);
        ValidationResult { passed: false, warnings: Vec::new(), errors }
    }

    /// Adds a warning. Whether the result passed does not change.
    pub fn add_warning(&mut self, message: &str)
        ensures
            final(self).warning_texts() == old(self).warning_texts().push(message@),
            final(self).errors == old(self).errors,
            final(self).passed == old(self).passed,
            old(self).wf() ==> final(self).wf(),
    {
        self.warnings.push(String::from_str(message));
        assert(message_texts(self.warnings@) =~= message_texts(old(self).warnings@).push(message@));
    }

    /// Adds an error. The result has not passed from then on.
    pub fn add_error(&mut self, message: &str)
        ensures
            final(self).error_texts() == old(self).error_texts().push(message@),
            final(self).warnings == old(self).warnings,
            !final(self).passed,
            final(self).wf(),
    {
        self.errors.push(String::from_str(message));
        self.passed = false;
        assert(message_texts(self.errors@) =~= message_texts(old(self).errors@).push(message@));
    }

    /// Takes over what `other` found, after what this result holds
    /// already. The result has passed just if both had.
    pub fn merge(&mut self, other: ValidationResult)
        ensures
            final(self).warnings@ == old(self).warnings@ + other.warnings@,
            final(self).errors@ == old(self).errors@ + other.errors@,
            final(self).passed == (old(self).passed && other.passed),
            old(self).wf() && other.wf() ==> final(self).wf(),
    {
        let mut other = other;
        self.warnings.append(&mut other.warnings);
        self.errors.append(&mut other.errors);
        if !other.passed {
            self.passed = false;
        }
    }
}

} // verus!
