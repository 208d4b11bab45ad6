//! What the resolution asks of the filesystem, and what it is told.
//!
//! The library looks nothing up on disk itself. For each source it says
//! what has to be looked up ([`Query`]); the caller looks it up and hands
//! back an [`Answer`]. Paths cross this border as text.

use vstd::prelude::*;
use crate::text::texts;

verus! {

/// A lookup that the caller performs for one source.
#[derive(Clone, Debug, PartialEq, Eq)]
pub enum Query {
    /// Resolve the path, which is the folder that holds a file source, to
    /// its canonical absolute form.
    Canonicalize { path: String },
    /// List every path that matches the glob pattern. Where the pattern is
    /// malformed no listing can be had, and none is looked at.
    Glob { pattern: String },
}

/// The mathematical model of a [`Query`].
pub enum QueryView {
    Canonicalize { path: Seq<char> },
    Glob { pattern: Seq<char> },
}

impl View for Query {
    type V = QueryView;

    open spec fn view(&self) -> QueryView {
        match self {
            Query::Canonicalize { path } => QueryView::Canonicalize { path: path@ },
            Query::Glob { pattern } => QueryView::Glob { pattern: pattern@ },
        }
    }
}

/// The models of a list of queries.
pub open spec fn query_views(v: Seq<Query>) -> Seq<QueryView> {
    v.map_values(|q: Query| q@)
}

/// A path that could not be read while a pattern was matched.
#[derive(Clone, Debug, PartialEq, Eq)]
pub struct ListingFailure {
    /// The path at which the listing failed.
    pub path: String,
    /// What the filesystem reported.
    pub reason: String,
}

/// The mathematical model of a [`ListingFailure`].
pub struct ListingFault {
    pub path: Seq<char>,
    pub reason: Seq<char>,
}

impl View for ListingFailure {
    type V = ListingFault;

    open spec fn view(&self) -> ListingFault {
        ListingFault { path: self.path@, reason: self.reason@ }
    }
}

/// The models of a list of listing failures.
pub open spec fn faults(v: Seq<ListingFailure>) -> Seq<ListingFault> {
    v.map_values(|f: ListingFailure| f@)
}

/// What the filesystem showed for one query.
#[derive(Clone, Debug, PartialEq, Eq)]
pub enum Answer {
    /// The canonical absolute form of the folder asked for.
    Canonical(String),
    /// The path could not be resolved, for the given reason.
    Unresolved(String),
    /// The paths that matched the pattern, in the order in which they were
    /// found, and the paths that could not be read on the way.
    Listing { matches: Vec<String>, failures: Vec<ListingFailure> },
}

/// The mathematical model of an [`Answer`].
pub enum AnswerView {
    Canonical(Seq<char>),
    Unresolved(Seq<char>),
    Listing { matches: Seq<Seq<char>>, failures: Seq<ListingFault> },
}

impl View for Answer {
    type V = AnswerView;

    open spec fn view(&self) -> AnswerView {
        match self {
            Answer::Canonical(path) => AnswerView::Canonical(path@),
            Answer::Unresolved(reason) => AnswerView::Unresolved(reason@),
            Answer::Listing { matches, failures } => AnswerView::Listing {
                matches: texts(matches@),
                failures: faults(failures@),
            },
        }
    }
}

/// The model of an answer that may be wanting.
pub open spec fn answer_view(a: Option<&Answer>) -> Option<AnswerView> {
    match a {
        Some(x) => Some(x@),
        None => None,
    }
}

/// The models of a list of answers.
pub open spec fn answer_views(v: Seq<Answer>) -> Seq<AnswerView> {
    v.map_values(|a: Answer| a@)
}

} // verus!
