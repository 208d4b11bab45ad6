//! The configuration: who packs, which sources there are, and where each of
//! them goes.

use vstd::prelude::*;
use crate::path::{parse_path, FilePath};
use crate::table::NameMap;

verus! {

/// A source location: a folder with a pattern, or a single file.
#[derive(Clone, Debug, PartialEq, Eq)]
pub enum Source {
    /// All files under the folder at `path` that match the glob `pattern`.
    Folder { path: String, pattern: String },
    /// The file at the given relative path.
    File(String),
}

/// The mathematical model of a [`Source`].
pub enum SourceView {
    Folder { path: Seq<char>, pattern: Seq<char> },
    File(Seq<char>),
}

impl View for Source {
    type V = SourceView;

    open spec fn view(&self) -> SourceView {
        match self {
            Source::Folder { path, pattern } => SourceView::Folder {
                path: path@,
                pattern: pattern@,
            },
            Source::File(path) => SourceView::File(path@),
        }
    }
}

/// A destination location.
#[derive(Clone, Debug, PartialEq, Eq)]
pub enum DestLoc {
    /// A folder, given as a format string for its path relative to the
    /// destination.
    Folder(String),
}

/// The mathematical model of a [`DestLoc`].
pub enum DestLocView {
    Folder(Seq<char>),
}

impl View for DestLoc {
    type V = DestLocView;

    open spec fn view(&self) -> DestLocView {
        match self {
            DestLoc::Folder(path) => DestLocView::Folder(path@),
        }
    }
}

/// Where everything goes: the name of the final folder or archive, and the
/// location of each source inside it.
#[derive(Debug, PartialEq, Eq)]
pub struct Destination {
    name: String,
    archive: bool,
    locations: NameMap<DestLoc>,
}

/// The mathematical model of a [`Destination`].
pub struct DestinationView {
    /// The format string for the name of the final folder.
    pub name: Seq<char>,
    /// Whether the folder is to be archived.
    pub archive: bool,
    /// The names of the locations, ascending.
    pub location_names: Seq<Seq<char>>,
    /// The locations, each at the position of its name.
    pub locations: Seq<DestLocView>,
}

impl View for Destination {
    type V = DestinationView;

    closed spec fn view(&self) -> DestinationView {
        DestinationView {
            name: self.name@,
            archive: self.archive,
            location_names: self.locations.names(),
            locations: self.locations.views(),
        }
    }
}

impl Destination {
    /// A destination of the given name with the given locations.
    pub fn new(name: String, archive: bool, locations: NameMap<DestLoc>) -> (r: Destination)
        ensures
            r@.name == name@,
            r@.archive == archive,
            r@.location_names == locations.names(),
            r@.locations == locations.views(),
    {
        Destination { name, archive, locations }
    }

    /// The destination taken apart: name, archive flag, locations.
    pub fn into_parts(self) -> (r: (String, bool, NameMap<DestLoc>))
        ensures
            r.0@ == self@.name,
            r.1 == self@.archive,
            r.2.names() == self@.location_names,
            r.2.views() == self@.locations,
    {
        (self.name, self.archive, self.locations)
    }

    /// The format string for the name of the final folder.
    pub fn name(&self) -> (r: &String)
        ensures
            r@ == self@.name,
    {
        &self.name
    }

    /// Whether the folder is to be archived.
    pub fn archive(&self) -> (r: bool)
        ensures
            r == self@.archive,
    {
        self.archive
    }

    /// The locations by name.
    pub fn locations(&self) -> (r: &NameMap<DestLoc>)
        ensures
            r.names() == self@.location_names,
            r.views() == self@.locations,
    {
        &self.locations
    }
}

/// The name of the file that holds the configuration.
pub open spec fn config_file_name() -> Seq<char> {
    "bathpack.toml"@
}

/// Where the configuration is looked for: the file of the usual name in
/// the folder given.
pub fn config_path(current_dir: &FilePath) -> (r: FilePath)
    ensures
        r@ == current_dir@.join(parse_path(config_file_name())),
{
    current_dir.join(&FilePath::parse("bathpack.toml"))
}

/// Source and destination locations for files, and who packs them.
#[derive(Debug, PartialEq, Eq)]
pub struct Config {
    username: String,
    sources: NameMap<Source>,
    destination: Destination,
}

/// The mathematical model of a [`Config`].
pub struct ConfigView {
    /// The user's name, bound to `username` in format strings.
    pub username: Seq<char>,
    /// The names of the sources, ascending.
    pub source_names: Seq<Seq<char>>,
    /// The sources, each at the position of its name.
    pub sources: Seq<SourceView>,
    /// The destination.
    pub destination: DestinationView,
}

impl View for Config {
    type V = ConfigView;

    closed spec fn view(&self) -> ConfigView {
        ConfigView {
            username: self.username@,
            source_names: self.sources.names(),
            sources: self.sources.views(),
            destination: self.destination@,
        }
    }
}

impl Config {
    /// A configuration from its parts.
    pub fn new(username: String, sources: NameMap<Source>, destination: Destination) -> (r: Config)
        ensures
            r@.username == username@,
            r@.source_names == sources.names(),
            r@.sources == sources.views(),
            r@.destination == destination@,
    {
        Config { username, sources, destination }
    }

    /// The configuration taken apart: user name, sources, destination.
    pub fn into_parts(self) -> (r: (String, NameMap<Source>, Destination))
        ensures
            r.0@ == self@.username,
            r.1.names() == self@.source_names,
            r.1.views() == self@.sources,
            r.2@ == self@.destination,
    {
        (self.username, self.sources, self.destination)
    }

    /// The user's name.
    pub fn username(&self) -> (r: &String)
        ensures
            r@ == self@.username,
    {
        &self.username
    }

    /// The sources, in ascending order of their names.
    pub fn sources(&self) -> (r: Vec<&Source>)
        ensures
            r@.len() == self@.sources.len(),
            forall|i: int| 0 <= i < r@.len() ==> (#[trigger] r@[i])@ == self@.sources[i],
    {
        let n: usize = self.sources.len();
        let mut out: Vec<&Source> = Vec::new();
        let mut i: usize = 0;
        while i < n
            invariant
                i <= n,
                n == self.sources.items().len(),
                out@.len() == i,
                forall|j: int| 0 <= j < i ==> (#[trigger] out@[j])@ == self.sources.views()[j],
            decreases n - i,
        {
            out.push(self.sources.item(i));
            i += 1;
        }
        out
    }

    /// The sources by name.
    pub fn source_map(&self) -> (r: &NameMap<Source>)
        ensures
            r.names() == self@.source_names,
            r.views() == self@.sources,
    {
        &self.sources
    }

    /// The destination.
    pub fn destination(&self) -> (r: &Destination)
        ensures
            r@ == self@.destination,
    {
        &self.destination
    }
}

} // verus!
