//! Glob patterns, as far as the resolution has to judge them: whether a
//! pattern is well formed. Matching a pattern against the filesystem is the
//! caller's part.
//!
//! The judgement is that of the `glob` crate, on the target that the
//! library is built for: which characters separate the components of a
//! pattern is asked of `std::path`, so that a pattern with a backslash is
//! judged differently on Windows.

use vstd::prelude::*;

verus! {

/// What is wrong with a glob pattern.
#[derive(Clone, Debug, PartialEq, Eq)]
pub struct PatternError {
    /// The approximate character index of where the pattern goes wrong.
    pub position: usize,
    /// What is wrong there.
    pub message: String,
}

/// The mathematical model of a [`PatternError`].
pub struct PatternFault {
    pub position: usize,
    pub message: Seq<char>,
}

impl View for PatternError {
    type V = PatternFault;

    open spec fn view(&self) -> PatternFault {
        PatternFault { position: self.position, message: self.message@ }
    }
}

/// The model of a verdict on a pattern.
pub open spec fn verdict_view(r: Option<PatternError>) -> Option<PatternFault> {
    match r {
        Some(e) => Some(e@),
        None => None,
    }
}

/// What `glob::glob` finds wrong with `pattern`, if anything, on the target
/// that the library is built for.
pub uninterp spec fn pattern_fault(pattern: Seq<char>) -> Option<PatternFault>;

/// Calls `glob::glob` on `pattern` and lets go of the iterator that it
/// returns without asking it for a path. `glob::glob` compiles the pattern,
/// whole and component by component; an error can only come from there and
/// depends on the text of the pattern alone. For a well-formed pattern it
/// then asks the filesystem one thing, the metadata of the directory that
/// the pattern starts from, to set up the iterator; that answer goes with
/// the iterator and has no part in the verdict. No directory is listed. The
/// contract claims only that the verdict, with position and message, is a
/// function of the pattern; it says nothing of which patterns are well
/// formed.
#[verifier::external_body]
pub(crate) fn check_pattern(pattern: &str) -> (r: Option<PatternError>)
    ensures
        verdict_view(r) == pattern_fault(pattern@),
{
    match glob::glob(pattern) {
        Ok(_) => None,
        Err(e) => Some(PatternError { position: e.pos, message: e.msg.to_string() }),
    }
}

} // verus!
