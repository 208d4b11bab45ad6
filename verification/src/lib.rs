//! Resolves a declarative description of named source locations and named
//! destination locations into a checked list of (source file, destination
//! file) pairs.
//!
//! The library decides nothing by what it finds on disk. Each stage of the
//! resolution is a function from plain values to plain values; whatever has
//! to be looked up on disk is handed in by the caller as an answer to a
//! question that the previous stage produced. (Judging a glob pattern goes
//! through `glob::glob`, which for a well-formed pattern asks for the
//! metadata of the directory that the pattern starts from; the library
//! makes no use of that answer.) The stages:
//!
//! 1. [`file_map::FileMapBuilder::format_destination`] fills in the name of
//!    the destination folder.
//! 2. [`file_map::DestFormatted::queries`] says what to look up for each
//!    source; [`file_map::DestFormatted::expand_paths`] takes the answers.
//! 3. Pairing, flattening and the scope check need nothing from outside.
//! 4. [`file_map::verify::ScopeVerified::sources`] lists the files whose
//!    existence is in question;
//!    [`file_map::verify::ScopeVerified::verify_existence`] takes those that
//!    were found.
//!
//! [`file_map::FileMapBuilder::build`] runs all stages at once for a caller
//! that has the answers beforehand.

pub mod config;
pub mod disk;
pub mod error;
pub mod file_map;
pub mod laws;
pub mod path;
pub mod pattern;
pub mod seqs;
pub mod table;
pub mod template;
pub mod text;
pub mod validate;
