//! The staged resolution of a configuration into a file map.
//!
//! Each stage is a type of its own whose one operation leads to the next
//! stage or fails: builder, destination formatted, paths expanded,
//! locations paired, locations flattened, scope verified, file map. A stage
//! can only be had from the stage before it.

pub mod expand;
pub mod flatten;
pub mod model;
pub mod pair;
pub mod verify;

use vstd::prelude::*;
use crate::config::{Config, DestLoc, Source};
use crate::error::{result_view, FileMapError};
use crate::disk::{answer_views, Answer};
use crate::file_map::expand::PathsExpanded;
use crate::file_map::model::{
    built, dest_formatted, in_scope, name_outcome, resolved, BuilderView, DestFormattedView,
    FileMapView,
};
use crate::path::{pair_views, paths, FilePath};
use crate::table::NameMap;
use crate::template::{outcome_view, substitute, TemplateError};

verus! {

/// The outcome of a resolution: the (source file, destination file) pairs,
/// in the order in which the files are to be placed, with the folder that
/// the sources start from, the destination folder and whether that folder
/// is to be archived. Every destination file lies within the destination
/// folder.
#[derive(Debug)]
pub struct FileMap {
    pub(crate) root_dir: FilePath,
    pub(crate) dest_dir: FilePath,
    pub(crate) archive: bool,
    pub(crate) map: Vec<(FilePath, FilePath)>,
}

impl View for FileMap {
    type V = FileMapView;

    open(crate) spec fn view(&self) -> FileMapView {
        FileMapView {
            root_dir: self.root_dir@,
            dest_dir: self.dest_dir@,
            archive: self.archive,
            pairs: pair_views(self.map@),
        }
    }
}

impl FileMap {
    #[verifier::type_invariant]
    pub(crate) open spec fn well_formed(&self) -> bool {
        in_scope(self@)
    }

    /// The folder that the sources start from.
    pub fn root_dir(&self) -> (r: &FilePath)
        ensures
            r@ == self@.root_dir,
    {
        &self.root_dir
    }

    /// The destination folder.
    pub fn dest_dir(&self) -> (r: &FilePath)
        ensures
            r@ == self@.dest_dir,
    {
        &self.dest_dir
    }

    /// Whether the destination folder is to be archived.
    pub fn archive(&self) -> (r: bool)
        ensures
            r == self@.archive,
    {
        self.archive
    }

    /// The (source file, destination file) pairs. Every destination file
    /// lies within the destination folder.
    pub fn pairs(&self) -> (r: &Vec<(FilePath, FilePath)>)
        ensures
            pair_views(r@) == self@.pairs,
            in_scope(self@),
    {
        proof {
            use_type_invariant(&*self);
        }
        &self.map
    }
}

/// The first stage: a configuration and the folder that its paths start
/// from.
#[derive(Debug)]
pub struct FileMapBuilder {
    pub(crate) root_dir: FilePath,
    pub(crate) config: Config,
}

impl View for FileMapBuilder {
    type V = BuilderView;

    open(crate) spec fn view(&self) -> BuilderView {
        BuilderView { root_dir: self.root_dir@, config: self.config@ }
    }
}

/// The stage at which the destination folder is known.
#[derive(Debug)]
pub struct DestFormatted {
    pub(crate) root_dir: FilePath,
    pub(crate) dest_dir: FilePath,
    pub(crate) username: String,
    pub(crate) archive: bool,
    pub(crate) sources: NameMap<Source>,
    pub(crate) dests: NameMap<DestLoc>,
}

impl View for DestFormatted {
    type V = DestFormattedView;

    open(crate) spec fn view(&self) -> DestFormattedView {
        DestFormattedView {
            root_dir: self.root_dir@,
            dest_dir: self.dest_dir@,
            username: self.username@,
            archive: self.archive,
            source_names: self.sources.names(),
            sources: self.sources.views(),
            location_names: self.dests.names(),
            locations: self.dests.views(),
        }
    }
}

impl DestFormatted {
    /// The folder that the sources start from.
    pub fn root_dir(&self) -> (r: &FilePath)
        ensures
            r@ == self@.root_dir,
    {
        &self.root_dir
    }

    /// The destination folder.
    pub fn dest_dir(&self) -> (r: &FilePath)
        ensures
            r@ == self@.dest_dir,
    {
        &self.dest_dir
    }

    /// Whether the destination folder is to be archived.
    pub fn archive(&self) -> (r: bool)
        ensures
            r == self@.archive,
    {
        self.archive
    }
}

impl FileMapBuilder {
    /// A builder for `config`, whose paths start from `root_dir`.
    pub fn from(config: Config, root_dir: FilePath) -> (r: FileMapBuilder)
        ensures
            r@ == (BuilderView { root_dir: root_dir@, config: config@ }),
    {
        FileMapBuilder { config, root_dir }
    }

    /// Fills in the name of the destination, with the user's name bound to
    /// `username`, and places the destination folder under the root.
    pub fn format_destination(self) -> (r: Result<DestFormatted, FileMapError>)
        ensures
            result_view(r) == dest_formatted(self@, name_outcome(self@)),
    {
        let outcome = substitute(
            self.config.destination().name().as_str(),
            "username",
            self.config.username().as_str(),
        );
        self.place_destination(outcome)
    }

    /// Runs every stage in turn. `answers` holds what the filesystem showed
    /// for each source, in ascending order of the sources' names, as
    /// [`DestFormatted::queries`] asks for it; `existing` holds the source
    /// files that are on disk. The first stage that fails decides the
    /// failure. A caller that can only look things up when asked leads the
    /// builder through the stages one by one instead.
    pub fn build(self, answers: &Vec<Answer>, existing: &Vec<FilePath>) -> (r: Result<
        FileMap,
        FileMapError,
    >)
        ensures
            result_view(r) == built(self@, answer_views(answers@), paths(existing@)),
    {
        let formatted = match self.format_destination() {
            Ok(d) => d,
            Err(e) => {
                return Err(e);
            },
        };
        let expanded = match formatted.expand_paths(answers) {
            Ok(p) => p,
            Err(e) => {
                return Err(e);
            },
        };
        expanded.resolve(existing)
    }

    /// Places the destination folder under the root, given the outcome of
    /// filling in its name.
    pub fn place_destination(self, outcome: Result<String, TemplateError>) -> (r: Result<
        DestFormatted,
        FileMapError,
    >)
        ensures
            result_view(r) == dest_formatted(self@, outcome_view(outcome)),
    {
        match outcome {
            Err(e) => Err(FileMapError::Template(e)),
            Ok(name) => {
                let dest_dir = self.root_dir.join(&FilePath::parse(name.as_str()));
                let (username, sources, destination) = self.config.into_parts();
                let (_, archive, dests) = destination.into_parts();
                Ok(DestFormatted { root_dir: self.root_dir, dest_dir, username, archive, sources, dests })
            },
        }
    }
}

impl PathsExpanded {
    /// Runs the stages that follow the expansion: pairing, flattening, the
    /// scope check and the existence check against `existing`, the source
    /// files that are on disk.
    pub fn resolve(self, existing: &Vec<FilePath>) -> (r: Result<FileMap, FileMapError>)
        ensures
            result_view(r) == resolved(self@, paths(existing@)),
    {
        let paired = match self.pair_locations() {
            Ok(p) => p,
            Err(e) => {
                return Err(e);
            },
        };
        let flattened = match paired.flatten_locations() {
            Ok(f) => f,
            Err(e) => {
                return Err(e);
            },
        };
        let verified = match flattened.verify_scope() {
            Ok(v) => v,
            Err(e) => {
                return Err(e);
            },
        };
        verified.verify_existence(existing)
    }
}

} // verus!
