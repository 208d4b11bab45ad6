//! The ways in which a resolution fails.

use vstd::prelude::*;
use vstd::string::*;
use crate::disk::{faults, ListingFailure, ListingFault};
use crate::text::{join_texts, separated, texts};
use crate::template::{TemplateError, TemplateFault};

verus! {

/// Why no file map could be built. Each stage reports everything it found
/// wrong in one value; a later stage is never tried after a failed one.
#[derive(Clone, Debug, PartialEq, Eq)]
pub enum FileMapError {
    /// The name of the destination, or the path of one of its locations,
    /// could not be filled in.
    Template(TemplateError),
    /// The source of this name was given no answer of the kind that it
    /// asked for.
    Unanswered { name: String },
    /// The folder that holds a file source could not be resolved.
    Canonicalize { path: String, reason: String },
    /// The path of a file source names no file in a folder.
    NoParent { path: String },
    /// A folder source was told of paths that do not lie under it; all of
    /// them for that source.
    InvalidPath { paths: Vec<String> },
    /// The pattern of a folder source is malformed.
    Pattern { pattern: String, position: usize, message: String },
    /// Paths could not be read while the pattern of a folder source was
    /// matched; all of them for that source.
    Glob { failures: Vec<ListingFailure> },
    /// Names stand on one side only: `missing_sources` are the locations
    /// without a source, `missing_destinations` the sources without a
    /// location.
    Pairing { missing_sources: Vec<String>, missing_destinations: Vec<String> },
    /// These destination paths lie outside the destination folder.
    Scope { paths: Vec<String> },
    /// These source files do not exist.
    NonexistentFiles { files: Vec<String> },
}

/// The mathematical model of a [`FileMapError`].
pub enum FileMapFault {
    Template(TemplateFault),
    Unanswered { name: Seq<char> },
    Canonicalize { path: Seq<char>, reason: Seq<char> },
    NoParent { path: Seq<char> },
    InvalidPath { paths: Seq<Seq<char>> },
    Pattern { pattern: Seq<char>, position: usize, message: Seq<char> },
    Glob { failures: Seq<ListingFault> },
    Pairing { missing_sources: Seq<Seq<char>>, missing_destinations: Seq<Seq<char>> },
    Scope { paths: Seq<Seq<char>> },
    NonexistentFiles { files: Seq<Seq<char>> },
}

impl View for FileMapError {
    type V = FileMapFault;

    open spec fn view(&self) -> FileMapFault {
        match self {
            FileMapError::Template(e) => FileMapFault::Template(e@),
            FileMapError::Unanswered { name } => FileMapFault::Unanswered { name: name@ },
            FileMapError::Canonicalize { path, reason } => FileMapFault::Canonicalize {
                path: path@,
                reason: reason@,
            },
            FileMapError::NoParent { path } => FileMapFault::NoParent { path: path@ },
            FileMapError::InvalidPath { paths } => FileMapFault::InvalidPath {
                paths: texts(paths@),
            },
            FileMapError::Pattern { pattern, position, message } => FileMapFault::Pattern {
                pattern: pattern@,
                position: *position,
                message: message@,
            },
            FileMapError::Glob { failures } => FileMapFault::Glob { failures: faults(failures@) },
            FileMapError::Pairing { missing_sources, missing_destinations } => FileMapFault::Pairing {
                missing_sources: texts(missing_sources@),
                missing_destinations: texts(missing_destinations@),
            },
            FileMapError::Scope { paths } => FileMapFault::Scope { paths: texts(paths@) },
            FileMapError::NonexistentFiles { files } => FileMapFault::NonexistentFiles {
                files: texts(files@),
            },
        }
    }
}

/// What is said of a format string that could not be filled in.
pub open spec fn template_text(fault: TemplateFault) -> Seq<char> {
    match fault {
        TemplateFault::Invalid(m) => "Destination format invalid: "@ + m,
        TemplateFault::KeyError(m) => "Destination format key error: "@ + m,
        TemplateFault::TypeError(m) => "Destination format type error: "@ + m,
    }
}

/// One line for a path that could not be read.
pub open spec fn fault_line(f: ListingFault) -> Seq<char> {
    f.path + ": "@ + f.reason
}

/// What is said of a failure, for a person to read.
pub open spec fn message_of(fault: FileMapFault) -> Seq<char> {
    match fault {
        FileMapFault::Template(e) => template_text(e),
        FileMapFault::Unanswered { name } => "Nothing is known of the source "@ + name,
        FileMapFault::Canonicalize { path, reason } => "Could not resolve "@ + path + ": "@
            + reason,
        FileMapFault::NoParent { path } => "Could not get the parent folder of "@ + path,
        FileMapFault::InvalidPath { paths } => "Some listed paths were outside their folder:\n"@
            + separated(paths, "\n"@),
        FileMapFault::Pattern { pattern, position, message } => "Invalid pattern "@ + pattern
            + ": "@ + message,
        FileMapFault::Glob { failures } => "Errors while matching glob patterns:\n"@ + separated(
            failures.map_values(|f: ListingFault| fault_line(f)),
            "\n"@,
        ),
        FileMapFault::Pairing { missing_sources, missing_destinations } =>
            "Some names stand on one side only. Without a source: "@ + separated(
            missing_sources,
            ", "@,
        ) + ". Without a destination: "@ + separated(missing_destinations, ", "@),
        FileMapFault::Scope { paths } =>
            "Some destination paths were outside the destination directory:\n"@ + separated(
            paths,
            "\n"@,
        ),
        FileMapFault::NonexistentFiles { files } => "Some source files do not exist:\n"@
            + separated(files, "\n"@),
    }
}

/// One line for each path that could not be read.
fn fault_lines(failures: &Vec<ListingFailure>) -> (r: Vec<String>)
    ensures
        texts(r@) == faults(failures@).map_values(|f: ListingFault| fault_line(f)),
{
    let mut out: Vec<String> = Vec::new();
    let n: usize = failures.len();
    let mut i: usize = 0;
    while i < n
        invariant
            i <= n,
            n == failures@.len(),
            out@.len() == i,
            forall|j: int| 0 <= j < i ==> (#[trigger] out@[j])@ == fault_line(failures@[j]@),
        decreases n - i,
    {
        let line = failures[i].path.clone().concat(": ").concat(failures[i].reason.as_str());
        out.push(line);
        i += 1;
    }
    assert(texts(out@) =~= faults(failures@).map_values(|f: ListingFault| fault_line(f)));
    out
}

impl TemplateError {
    /// What is said of the failure, for a person to read.
    pub fn message(&self) -> (r: String)
        ensures
            r@ == template_text(self@),
    {
        match self {
            TemplateError::Invalid(m) => String::from_str("Destination format invalid: ").concat(
                m.as_str(),
            ),
            TemplateError::KeyError(m) => String::from_str(
                "Destination format key error: ",
            ).concat(m.as_str()),
            TemplateError::TypeError(m) => String::from_str(
                "Destination format type error: ",
            ).concat(m.as_str()),
        }
    }
}

impl FileMapError {
    /// What is said of the failure, for a person to read.
    pub fn message(&self) -> (r: String)
        ensures
            r@ == message_of(self@),
    {
        match self {
            FileMapError::Template(e) => e.message(),
            FileMapError::Unanswered { name } => String::from_str(
                "Nothing is known of the source ",
            ).concat(name.as_str()),
            FileMapError::Canonicalize { path, reason } => String::from_str(
                "Could not resolve ",
            ).concat(path.as_str()).concat(": ").concat(reason.as_str()),
            FileMapError::NoParent { path } => String::from_str(
                "Could not get the parent folder of ",
            ).concat(path.as_str()),
            FileMapError::InvalidPath { paths } => String::from_str(
                "Some listed paths were outside their folder:\n",
            ).concat(join_texts(paths, "\n").as_str()),
            FileMapError::Pattern { pattern, position, message } => String::from_str(
                "Invalid pattern ",
            ).concat(pattern.as_str()).concat(": ").concat(message.as_str()),
            FileMapError::Glob { failures } => {
                let lines = fault_lines(failures);
                String::from_str("Errors while matching glob patterns:\n").concat(
                    join_texts(&lines, "\n").as_str(),
                )
            },
            FileMapError::Pairing { missing_sources, missing_destinations } => String::from_str(
                "Some names stand on one side only. Without a source: ",
            ).concat(join_texts(missing_sources, ", ").as_str()).concat(
                ". Without a destination: ",
            ).concat(join_texts(missing_destinations, ", ").as_str()),
            FileMapError::Scope { paths } => String::from_str(
                "Some destination paths were outside the destination directory:\n",
            ).concat(join_texts(paths, "\n").as_str()),
            FileMapError::NonexistentFiles { files } => String::from_str(
                "Some source files do not exist:\n",
            ).concat(join_texts(files, "\n").as_str()),
        }
    }
}

/// The model of an outcome: the model of what was made, or of the failure.
pub open spec fn result_view<T: View>(r: Result<T, FileMapError>) -> Result<T::V, FileMapFault> {
    match r {
        Ok(t) => Ok(t@),
        Err(e) => Err(e@),
    }
}

} // verus!
