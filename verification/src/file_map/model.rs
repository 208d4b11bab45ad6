//! The resolution as mathematics: what each stage makes of the stage before
//! it, and the whole as their composition.

use vstd::prelude::*;
use crate::config::{ConfigView, DestLocView, SourceView};
use crate::disk::{AnswerView, QueryView};
use crate::error::FileMapFault;
use crate::path::{parse_path, PathView};
use crate::pattern::{pattern_fault, PatternFault};
use crate::seqs::collect;
use crate::table::unmatched;
use crate::template::{formatted, TemplateFault};

verus! {

/// The name of the variable that format strings may use.
pub open spec fn username_key() -> Seq<char> {
    "username"@
}

/// A builder: a configuration and the folder that its paths start from.
pub struct BuilderView {
    pub root_dir: PathView,
    pub config: ConfigView,
}

/// The state once the destination folder is known.
pub struct DestFormattedView {
    pub root_dir: PathView,
    pub dest_dir: PathView,
    pub username: Seq<char>,
    pub archive: bool,
    pub source_names: Seq<Seq<char>>,
    pub sources: Seq<SourceView>,
    pub location_names: Seq<Seq<char>>,
    pub locations: Seq<DestLocView>,
}

/// A source as found on disk: the folder that its files are placed
/// relative to, and the files.
pub struct ExpandedSourceView {
    pub base: PathView,
    pub items: Seq<PathView>,
}

/// The state once every source and every location is a concrete path.
pub struct PathsExpandedView {
    pub root_dir: PathView,
    pub dest_dir: PathView,
    pub archive: bool,
    pub source_names: Seq<Seq<char>>,
    pub sources: Seq<ExpandedSourceView>,
    pub location_names: Seq<Seq<char>>,
    pub locations: Seq<PathView>,
}

/// A source together with the location of the same name.
pub struct PairedView {
    pub name: Seq<char>,
    pub source: ExpandedSourceView,
    pub dest: PathView,
}

/// The state once sources and locations are matched by name.
pub struct LocationsPairedView {
    pub root_dir: PathView,
    pub dest_dir: PathView,
    pub archive: bool,
    pub pairs: Seq<PairedView>,
}

/// A file map, and each state that holds a flat list of (source file,
/// destination file) pairs.
pub struct FileMapView {
    pub root_dir: PathView,
    pub dest_dir: PathView,
    pub archive: bool,
    pub pairs: Seq<(PathView, PathView)>,
}

// ---------------------------------------------------------------------
// The destination folder

/// The state after the destination's name was filled in with `outcome`.
pub open spec fn dest_formatted(
    b: BuilderView,
    outcome: Result<Seq<char>, TemplateFault>,
) -> Result<DestFormattedView, FileMapFault> {
    match outcome {
        Ok(name) => Ok(
            DestFormattedView {
                root_dir: b.root_dir,
                dest_dir: b.root_dir.join(parse_path(name)),
                username: b.config.username,
                archive: b.config.destination.archive,
                source_names: b.config.source_names,
                sources: b.config.sources,
                location_names: b.config.destination.location_names,
                locations: b.config.destination.locations,
            },
        ),
        Err(e) => Err(FileMapFault::Template(e)),
    }
}

/// What filling in the destination's name gives.
pub open spec fn name_outcome(b: BuilderView) -> Result<Seq<char>, TemplateFault> {
    formatted(b.config.destination.name, username_key(), b.config.username)
}

// ---------------------------------------------------------------------
// Sources

/// The path of a file source: `rel` taken from `root`.
pub open spec fn file_path(root: PathView, rel: Seq<char>) -> PathView {
    root.join(parse_path(rel))
}

/// The text of the path to resolve for a file source: the folder that holds
/// the file; the path of the file itself where it has no such folder.
pub open spec fn lookup_path(root: PathView, rel: Seq<char>) -> Seq<char> {
    match file_path(root, rel).parent() {
        Some(folder) => folder.render(),
        None => file_path(root, rel).render(),
    }
}

/// The text of `pattern` taken from `base`: a pattern that starts at the
/// root stands alone, any other follows the text of `base` unchanged.
pub open spec fn pattern_text(base: PathView, pattern: Seq<char>) -> Seq<char> {
    if pattern.len() > 0 && pattern[0] == '/' {
        pattern
    } else if base.parts.len() == 0 {
        base.render() + pattern
    } else {
        base.render() + seq!['/'] + pattern
    }
}

/// The folder that a folder source's files are placed relative to.
pub open spec fn folder_base(root: PathView, path: Seq<char>) -> PathView {
    root.join(parse_path(path))
}

/// What has to be looked up on disk for a source.
pub open spec fn query_for(root: PathView, source: SourceView) -> QueryView {
    match source {
        SourceView::File(rel) => QueryView::Canonicalize { path: lookup_path(root, rel) },
        SourceView::Folder { path, pattern } => QueryView::Glob {
            pattern: pattern_text(folder_base(root, path), pattern),
        },
    }
}

/// The lookups for all sources, in the order of their names.
pub open spec fn queries_for(root: PathView, sources: Seq<SourceView>) -> Seq<QueryView> {
    sources.map_values(|s: SourceView| query_for(root, s))
}

/// Whether a listed path does not lie under `base`.
pub open spec fn strays_from(base: PathView) -> spec_fn(Seq<char>) -> bool {
    |m: Seq<char>| !parse_path(m).starts_with(base)
}

/// The listed paths that do not lie under `base`.
pub open spec fn stray(base: PathView, matches: Seq<Seq<char>>) -> Seq<Seq<char>> {
    matches.filter(strays_from(base))
}

/// A file source under the answer it was given. The answer is the
/// canonical form of the folder that holds the file; that folder is the
/// base, and the file is its one item. Whether the file itself is on disk is
/// not asked here.
pub open spec fn expand_file(
    root: PathView,
    name: Seq<char>,
    rel: Seq<char>,
    answer: Option<AnswerView>,
) -> Result<ExpandedSourceView, FileMapFault> {
    let full = file_path(root, rel);
    match full.file_name() {
        None => Err(FileMapFault::NoParent { path: full.render() }),
        Some(file) => match answer {
            Some(AnswerView::Canonical(folder)) => Ok(
                ExpandedSourceView {
                    base: parse_path(folder),
                    items: seq![parse_path(folder).join(file)],
                },
            ),
            Some(AnswerView::Unresolved(reason)) => Err(
                FileMapFault::Canonicalize { path: lookup_path(root, rel), reason },
            ),
            _ => Err(FileMapFault::Unanswered { name }),
        },
    }
}

/// A folder source under the answer it was given, where `fault` is what
/// is wrong with its pattern, if anything. A malformed pattern is reported
/// before the answer is looked at; paths that could not be read are
/// reported before listed paths that do not lie under the folder, and each
/// of the two kinds with all its paths. Matching no file is no failure.
pub open spec fn expand_folder(
    root: PathView,
    name: Seq<char>,
    path: Seq<char>,
    pattern: Seq<char>,
    fault: Option<PatternFault>,
    answer: Option<AnswerView>,
) -> Result<ExpandedSourceView, FileMapFault> {
    let base = folder_base(root, path);
    match fault {
        Some(f) => Err(
            FileMapFault::Pattern {
                pattern: pattern_text(base, pattern),
                position: f.position,
                message: f.message,
            },
        ),
        None => match answer {
            Some(AnswerView::Listing { matches, failures }) => {
                if failures.len() > 0 {
                    Err(FileMapFault::Glob { failures })
                } else if stray(base, matches).len() > 0 {
                    Err(FileMapFault::InvalidPath { paths: stray(base, matches) })
                } else {
                    Ok(
                        ExpandedSourceView {
                            base,
                            items: matches.map_values(|m: Seq<char>| parse_path(m)),
                        },
                    )
                }
            },
            _ => Err(FileMapFault::Unanswered { name }),
        },
    }
}

/// A source under the answer it was given.
pub open spec fn expand_source(
    root: PathView,
    name: Seq<char>,
    source: SourceView,
    answer: Option<AnswerView>,
) -> Result<ExpandedSourceView, FileMapFault> {
    match source {
        SourceView::File(rel) => expand_file(root, name, rel, answer),
        SourceView::Folder { path, pattern } => expand_folder(
            root,
            name,
            path,
            pattern,
            pattern_fault(pattern_text(folder_base(root, path), pattern)),
            answer,
        ),
    }
}

/// The answer at position `i`, if there is one.
pub open spec fn answer_at(answers: Seq<AnswerView>, i: int) -> Option<AnswerView> {
    if 0 <= i < answers.len() {
        Some(answers[i])
    } else {
        None
    }
}

/// Each source under the answer at its position.
pub open spec fn source_outcomes(
    root: PathView,
    names: Seq<Seq<char>>,
    sources: Seq<SourceView>,
    answers: Seq<AnswerView>,
) -> Seq<Result<ExpandedSourceView, FileMapFault>> {
    Seq::new(sources.len(), |i: int| expand_source(root, names[i], sources[i], answer_at(answers, i)))
}

/// All sources expanded, or the failure of the first source that fails.
pub open spec fn expand_sources(
    root: PathView,
    names: Seq<Seq<char>>,
    sources: Seq<SourceView>,
    answers: Seq<AnswerView>,
) -> Result<Seq<ExpandedSourceView>, FileMapFault> {
    collect(source_outcomes(root, names, sources, answers))
}

// ---------------------------------------------------------------------
// Locations

/// The format string of a location.
pub open spec fn location_template(location: DestLocView) -> Seq<char> {
    match location {
        DestLocView::Folder(path) => path,
    }
}

/// A location whose path was filled in with `outcome`, under `root`.
pub open spec fn place_location(
    root: PathView,
    outcome: Result<Seq<char>, TemplateFault>,
) -> Result<PathView, FileMapFault> {
    match outcome {
        Ok(path) => Ok(root.join(parse_path(path))),
        Err(e) => Err(FileMapFault::Template(e)),
    }
}

/// All locations placed under `root`, or the failure of the first one that
/// fails.
pub open spec fn expand_dests_from(
    root: PathView,
    outcomes: Seq<Result<Seq<char>, TemplateFault>>,
) -> Result<Seq<PathView>, FileMapFault> {
    collect(outcomes.map_values(|o: Result<Seq<char>, TemplateFault>| place_location(root, o)))
}

/// What filling in each location's path gives.
pub open spec fn location_outcomes(locations: Seq<DestLocView>, username: Seq<char>) -> Seq<
    Result<Seq<char>, TemplateFault>,
> {
    locations.map_values(
        |l: DestLocView| formatted(location_template(l), username_key(), username),
    )
}

/// The state after sources and locations were expanded, given the answers
/// for the sources and the outcomes of filling in the locations.
pub open spec fn paths_expanded_from(
    d: DestFormattedView,
    answers: Seq<AnswerView>,
    outcomes: Seq<Result<Seq<char>, TemplateFault>>,
) -> Result<PathsExpandedView, FileMapFault> {
    match expand_sources(d.root_dir, d.source_names, d.sources, answers) {
        Err(e) => Err(e),
        Ok(sources) => match expand_dests_from(d.dest_dir, outcomes) {
            Err(e) => Err(e),
            Ok(locations) => Ok(
                PathsExpandedView {
                    root_dir: d.root_dir,
                    dest_dir: d.dest_dir,
                    archive: d.archive,
                    source_names: d.source_names,
                    sources,
                    location_names: d.location_names,
                    locations,
                },
            ),
        },
    }
}

/// The state after sources and locations were expanded.
pub open spec fn paths_expanded(d: DestFormattedView, answers: Seq<AnswerView>) -> Result<
    PathsExpandedView,
    FileMapFault,
> {
    paths_expanded_from(d, answers, location_outcomes(d.locations, d.username))
}

// ---------------------------------------------------------------------
// Pairing

/// Each source with the location of its name, in the order of the sources.
pub open spec fn pairs_of(e: PathsExpandedView) -> Seq<PairedView> {
    Seq::new(
        e.source_names.len(),
        |i: int|
            PairedView {
                name: e.source_names[i],
                source: e.sources[i],
                dest: e.locations[e.location_names.index_of(e.source_names[i])],
            },
    )
}

/// The names of a list of pairs.
pub open spec fn pair_names(pairs: Seq<PairedView>) -> Seq<Seq<char>> {
    pairs.map_values(|p: PairedView| p.name)
}

/// The state after pairing: every name must stand on both sides; if not,
/// the failure lists all names that stand on one side only.
pub open spec fn locations_paired(e: PathsExpandedView) -> Result<LocationsPairedView, FileMapFault> {
    let missing_destinations = unmatched(e.source_names, e.location_names);
    let missing_sources = unmatched(e.location_names, e.source_names);
    if missing_destinations.len() == 0 && missing_sources.len() == 0 {
        Ok(
            LocationsPairedView {
                root_dir: e.root_dir,
                dest_dir: e.dest_dir,
                archive: e.archive,
                pairs: pairs_of(e),
            },
        )
    } else {
        Err(FileMapFault::Pairing { missing_sources, missing_destinations })
    }
}

// ---------------------------------------------------------------------
// Flattening

/// Where a file of a source goes: its path relative to the source's base,
/// under the location.
pub open spec fn destination_of(item: PathView, base: PathView, dest: PathView) -> PathView {
    dest.join(item.relative_to(base))
}

/// The files of one pair, each with where it goes.
pub open spec fn flatten_pair(p: PairedView) -> Seq<(PathView, PathView)> {
    p.source.items.map_values(|item: PathView| (item, destination_of(item, p.source.base, p.dest)))
}

/// The files of all pairs in order, each with where it goes.
pub open spec fn flatten_pairs(pairs: Seq<PairedView>) -> Seq<(PathView, PathView)>
    decreases pairs.len(),
{
    if pairs.len() == 0 {
        Seq::empty()
    } else {
        flatten_pairs(pairs.drop_last()) + flatten_pair(pairs.last())
    }
}

/// The state after flattening.
pub open spec fn locations_flattened(p: LocationsPairedView) -> FileMapView {
    FileMapView {
        root_dir: p.root_dir,
        dest_dir: p.dest_dir,
        archive: p.archive,
        pairs: flatten_pairs(p.pairs),
    }
}

// ---------------------------------------------------------------------
// Scope and existence

/// Whether the destination of a pair lies outside `dest_dir`.
pub open spec fn escapes(dest_dir: PathView) -> spec_fn((PathView, PathView)) -> bool {
    |p: (PathView, PathView)| !p.1.within(dest_dir)
}

/// The destination paths that lie outside `dest_dir`, as text.
pub open spec fn outside(pairs: Seq<(PathView, PathView)>, dest_dir: PathView) -> Seq<Seq<char>> {
    pairs.filter(escapes(dest_dir)).map_values(|p: (PathView, PathView)| p.1.render())
}

/// Whether every destination path lies within `dest_dir`.
pub open spec fn in_scope(m: FileMapView) -> bool {
    forall|i: int| 0 <= i < m.pairs.len() ==> (#[trigger] m.pairs[i]).1.within(m.dest_dir)
}

/// The state after the scope was checked.
pub open spec fn scope_verified(m: FileMapView) -> Result<FileMapView, FileMapFault> {
    if outside(m.pairs, m.dest_dir).len() == 0 {
        Ok(m)
    } else {
        Err(FileMapFault::Scope { paths: outside(m.pairs, m.dest_dir) })
    }
}

/// Whether the source of a pair is not among `existing`.
pub open spec fn missing_from(existing: Seq<PathView>) -> spec_fn((PathView, PathView)) -> bool {
    |p: (PathView, PathView)| !existing.contains(p.0)
}

/// The source paths that are not among `existing`, as text.
pub open spec fn absent(pairs: Seq<(PathView, PathView)>, existing: Seq<PathView>) -> Seq<Seq<char>> {
    pairs.filter(missing_from(existing)).map_values(|p: (PathView, PathView)| p.0.render())
}

/// The file map, if every source file is among `existing`.
pub open spec fn existence_verified(m: FileMapView, existing: Seq<PathView>) -> Result<
    FileMapView,
    FileMapFault,
> {
    if absent(m.pairs, existing).len() == 0 {
        Ok(m)
    } else {
        Err(FileMapFault::NonexistentFiles { files: absent(m.pairs, existing) })
    }
}

// ---------------------------------------------------------------------
// The whole

/// Everything after the expansion: pairing, flattening, scope, existence.
pub open spec fn resolved(e: PathsExpandedView, existing: Seq<PathView>) -> Result<
    FileMapView,
    FileMapFault,
> {
    match locations_paired(e) {
        Err(err) => Err(err),
        Ok(p) => match scope_verified(locations_flattened(p)) {
            Err(err) => Err(err),
            Ok(m) => existence_verified(m, existing),
        },
    }
}

/// The whole resolution, given the outcome of filling in the destination's
/// name and the outcomes of filling in the locations.
pub open spec fn built_from(
    b: BuilderView,
    name: Result<Seq<char>, TemplateFault>,
    locations: Seq<Result<Seq<char>, TemplateFault>>,
    answers: Seq<AnswerView>,
    existing: Seq<PathView>,
) -> Result<FileMapView, FileMapFault> {
    match dest_formatted(b, name) {
        Err(err) => Err(err),
        Ok(d) => match paths_expanded_from(d, answers, locations) {
            Err(err) => Err(err),
            Ok(e) => resolved(e, existing),
        },
    }
}

/// The whole resolution.
pub open spec fn built(b: BuilderView, answers: Seq<AnswerView>, existing: Seq<PathView>) -> Result<
    FileMapView,
    FileMapFault,
> {
    built_from(
        b,
        name_outcome(b),
        location_outcomes(b.config.destination.locations, b.config.username),
        answers,
        existing,
    )
}

} // verus!
