//! From the destination folder to concrete paths: each source under the
//! answer that the filesystem gave for it, each location under the
//! destination folder.

use vstd::prelude::*;
use vstd::string::*;
use crate::config::{DestLoc, Source};
use crate::disk::{answer_view, answer_views, faults, query_views, Answer, ListingFailure, Query};
use crate::error::{result_view, FileMapError, FileMapFault};
use crate::file_map::model;
use crate::file_map::model::{ExpandedSourceView, PathsExpandedView};
use crate::file_map::DestFormatted;
use crate::path::{parse_path, paths, FilePath, PathView};
use crate::pattern::{check_pattern, verdict_view, PatternError};
use crate::text::texts;
use crate::seqs::{collect, lemma_collect_failure_stays, lemma_collect_next, lemma_filter_next};
use crate::table::NameMap;
use crate::template::{outcome_view, substitute, TemplateError, TemplateFault};

verus! {

/// A source as found on disk: the folder that its files are placed relative
/// to, and the files. Every file lies under that folder.
#[derive(Debug)]
pub struct ExpandedSource {
    pub(crate) base: FilePath,
    pub(crate) items: Vec<FilePath>,
}

impl View for ExpandedSource {
    type V = ExpandedSourceView;

    open(crate) spec fn view(&self) -> ExpandedSourceView {
        ExpandedSourceView { base: self.base@, items: paths(self.items@) }
    }
}

/// Whether every file of the source lies under its base.
pub open spec fn anchored(s: ExpandedSourceView) -> bool {
    forall|i: int| 0 <= i < s.items.len() ==> (#[trigger] s.items[i]).starts_with(s.base)
}

impl ExpandedSource {
    #[verifier::type_invariant]
    pub(crate) open spec fn well_formed(&self) -> bool {
        anchored(self@)
    }

    /// The folder that the files are placed relative to.
    pub fn base(&self) -> (r: &FilePath)
        ensures
            r@ == self@.base,
    {
        &self.base
    }

    /// The files. Each of them lies under the base.
    pub fn items(&self) -> (r: &Vec<FilePath>)
        ensures
            paths(r@) == self@.items,
            anchored(self@),
    {
        proof {
            use_type_invariant(&*self);
        }
        &self.items
    }
}

impl Clone for ExpandedSource {
    fn clone(&self) -> (r: ExpandedSource)
        ensures
            r@ == self@,
    {
        proof {
            use_type_invariant(&*self);
        }
        let items = copy_paths(&self.items);
        ExpandedSource { base: self.base.clone(), items }
    }
}

/// A location as a concrete path.
#[derive(Debug)]
pub struct ExpandedDest {
    pub(crate) root: FilePath,
}

impl View for ExpandedDest {
    type V = PathView;

    open(crate) spec fn view(&self) -> PathView {
        self.root@
    }
}

impl ExpandedDest {
    /// The folder that the location stands for.
    pub fn root(&self) -> (r: &FilePath)
        ensures
            r@ == self@,
    {
        &self.root
    }
}

/// The stage at which every source and every location is a concrete path.
#[derive(Debug)]
pub struct PathsExpanded {
    pub(crate) root_dir: FilePath,
    pub(crate) dest_dir: FilePath,
    pub(crate) archive: bool,
    pub(crate) sources: NameMap<ExpandedSource>,
    pub(crate) dests: NameMap<ExpandedDest>,
}

impl View for PathsExpanded {
    type V = PathsExpandedView;

    open(crate) spec fn view(&self) -> PathsExpandedView {
        PathsExpandedView {
            root_dir: self.root_dir@,
            dest_dir: self.dest_dir@,
            archive: self.archive,
            source_names: self.sources.names(),
            sources: self.sources.views(),
            location_names: self.dests.names(),
            locations: self.dests.views(),
        }
    }
}

impl PathsExpanded {
    /// The destination folder.
    pub fn dest_dir(&self) -> (r: &FilePath)
        ensures
            r@ == self@.dest_dir,
    {
        &self.dest_dir
    }

    /// The expanded sources by name.
    pub fn sources(&self) -> (r: &NameMap<ExpandedSource>)
        ensures
            r.names() == self@.source_names,
            r.views() == self@.sources,
    {
        &self.sources
    }

    /// The expanded locations by name.
    pub fn dests(&self) -> (r: &NameMap<ExpandedDest>)
        ensures
            r.names() == self@.location_names,
            r.views() == self@.locations,
    {
        &self.dests
    }
}

/// Copies a list of paths.
pub(crate) fn copy_paths(v: &Vec<FilePath>) -> (r: Vec<FilePath>)
    ensures
        paths(r@) == paths(v@),
{
    let mut out: Vec<FilePath> = Vec::new();
    let n: usize = v.len();
    let mut i: usize = 0;
    while i < n
        invariant
            i <= n,
            n == v@.len(),
            paths(out@) == paths(v@).take(i as int),
        decreases n - i,
    {
        let ghost before = out@;
        out.push(v[i].clone());
        assert(paths(out@) =~= paths(before).push(v@[i as int]@));
        assert(paths(out@) =~= paths(v@).take(i + 1));
        i += 1;
    }
    assert(paths(v@).take(n as int) =~= paths(v@));
    out
}

/// Copies a list of listing failures.
fn copy_failures(v: &Vec<ListingFailure>) -> (r: Vec<ListingFailure>)
    ensures
        faults(r@) == faults(v@),
{
    let mut out: Vec<ListingFailure> = Vec::new();
    let n: usize = v.len();
    let mut i: usize = 0;
    while i < n
        invariant
            i <= n,
            n == v@.len(),
            faults(out@) == faults(v@).take(i as int),
        decreases n - i,
    {
        let ghost before = out@;
        out.push(ListingFailure { path: v[i].path.clone(), reason: v[i].reason.clone() });
        assert(faults(out@) =~= faults(before).push(v@[i as int]@));
        assert(faults(out@) =~= faults(v@).take(i + 1));
        i += 1;
    }
    assert(faults(v@).take(n as int) =~= faults(v@));
    out
}

/// The text of `pattern` taken from `base`.
fn pattern_text(base: &FilePath, pattern: &str) -> (r: String)
    ensures
        r@ == model::pattern_text(base@, pattern@),
{
    if pattern.unicode_len() > 0 && pattern.get_char(0) == '/' {
        return String::from_str(pattern);
    }
    let mut out = base.render();
    if base.len() > 0 {
        proof {
            reveal_strlit("/");
        }
        out.append("/");
        assert("/"@ =~= seq!['/']);
    }
    out.append(pattern);
    out
}

/// What has to be looked up on disk for a source.
fn query_for(root: &FilePath, source: &Source) -> (r: Query)
    ensures
        r@ == model::query_for(root@, source@),
{
    match source {
        Source::File(rel) => Query::Canonicalize {
            path: lookup_path(&root.join(&FilePath::parse(rel.as_str()))),
        },
        Source::Folder { path, pattern } => {
            let base = root.join(&FilePath::parse(path.as_str()));
            Query::Glob { pattern: pattern_text(&base, pattern.as_str()) }
        },
    }
}

/// The text of the path to resolve for a file source.
fn lookup_path(full: &FilePath) -> (r: String)
    ensures
        r@ == (match full@.parent() {
            Some(folder) => folder.render(),
            None => full@.render(),
        }),
{
    match full.parent() {
        Some(folder) => folder.render(),
        None => full.render(),
    }
}

/// A file source under the answer it was given.
pub fn expand_file(root: &FilePath, name: &String, rel: &String, answer: Option<&Answer>) -> (r: Result<
    ExpandedSource,
    FileMapError,
>)
    ensures
        result_view(r) == model::expand_file(root@, name@, rel@, answer_view(answer)),
{
    let full = root.join(&FilePath::parse(rel.as_str()));
    let file = match full.file_name() {
        Some(file) => file,
        None => {
            return Err(FileMapError::NoParent { path: full.render() });
        },
    };
    match answer {
        Some(Answer::Canonical(folder)) => {
            let base = FilePath::parse(folder.as_str());
            let item = base.join(&file);
            let mut items: Vec<FilePath> = Vec::new();
            items.push(item);
            proof {
                assert(item@.parts.take(base@.parts.len() as int) =~= base@.parts);
                assert(paths(items@) =~= seq![item@]);
            }
            Ok(ExpandedSource { base, items })
        },
        Some(Answer::Unresolved(reason)) => Err(
            FileMapError::Canonicalize { path: lookup_path(&full), reason: reason.clone() },
        ),
        _ => Err(FileMapError::Unanswered { name: name.clone() }),
    }
}

/// A folder source under the answer it was given, where `fault` is what
/// is wrong with its pattern, if anything.
pub fn expand_folder(
    root: &FilePath,
    name: &String,
    path: &String,
    pattern: &String,
    fault: Option<PatternError>,
    answer: Option<&Answer>,
) -> (r: Result<ExpandedSource, FileMapError>)
    ensures
        result_view(r) == model::expand_folder(
            root@,
            name@,
            path@,
            pattern@,
            verdict_view(fault),
            answer_view(answer),
        ),
{
    let base = root.join(&FilePath::parse(path.as_str()));
    if let Some(f) = fault {
        return Err(
            FileMapError::Pattern {
                pattern: pattern_text(&base, pattern.as_str()),
                position: f.position,
                message: f.message,
            },
        );
    }
    match answer {
        Some(Answer::Listing { matches, failures }) => {
            if failures.len() > 0 {
                return Err(FileMapError::Glob { failures: copy_failures(failures) });
            }
            let ghost listed = texts(matches@);
            let ghost stray = model::strays_from(base@);
            let mut items: Vec<FilePath> = Vec::new();
            let mut strayed: Vec<String> = Vec::new();
            let n: usize = matches.len();
            let mut i: usize = 0;
            proof {
                reveal(Seq::filter);
                assert(listed.take(0) =~= Seq::<Seq<char>>::empty());
                assert(texts(strayed@) =~= listed.take(0).filter(stray));
            }
            while i < n
                invariant
                    i <= n,
                    n == matches@.len(),
                    listed == texts(matches@),
                    stray == model::strays_from(base@),
                    texts(strayed@) == listed.take(i as int).filter(stray),
                    forall|j: int|
                        0 <= j < items@.len() ==> (#[trigger] items@[j])@.starts_with(base@),
                    strayed@.len() == 0 ==> items@.len() == i,
                    strayed@.len() == 0 ==> forall|j: int|
                        0 <= j < i ==> (#[trigger] items@[j])@ == parse_path(listed[j]),
                decreases n - i,
            {
                proof {
                    lemma_filter_next(listed, stray, i as int);
                }
                let item = FilePath::parse(matches[i].as_str());
                if item.starts_with(&base) {
                    items.push(item);
                } else {
                    let ghost before = strayed@;
                    strayed.push(matches[i].clone());
                    assert(texts(strayed@) =~= texts(before).push(listed[i as int]));
                }
                i += 1;
            }
            assert(listed.take(n as int) =~= listed);
            if strayed.len() > 0 {
                return Err(FileMapError::InvalidPath { paths: strayed });
            }
            assert(paths(items@) =~= listed.map_values(|m: Seq<char>| parse_path(m)));
            Ok(ExpandedSource { base, items })
        },
        _ => Err(FileMapError::Unanswered { name: name.clone() }),
    }
}

/// A source under the answer it was given. The pattern of a folder source
/// is judged here.
pub fn expand_source(root: &FilePath, name: &String, source: &Source, answer: Option<&Answer>) -> (r:
    Result<ExpandedSource, FileMapError>)
    ensures
        result_view(r) == model::expand_source(root@, name@, source@, answer_view(answer)),
{
    match source {
        Source::File(rel) => expand_file(root, name, rel, answer),
        Source::Folder { path, pattern } => {
            let base = root.join(&FilePath::parse(path.as_str()));
            let fault = check_pattern(pattern_text(&base, pattern.as_str()).as_str());
            expand_folder(root, name, path, pattern, fault, answer)
        },
    }
}

/// A location under `root`, given the outcome of filling in its path.
pub fn place_location(root: &FilePath, outcome: Result<String, TemplateError>) -> (r: Result<
    ExpandedDest,
    FileMapError,
>)
    ensures
        result_view(r) == model::place_location(root@, outcome_view(outcome)),
{
    match outcome {
        Ok(path) => Ok(ExpandedDest { root: root.join(&FilePath::parse(path.as_str())) }),
        Err(e) => Err(FileMapError::Template(e)),
    }
}

/// The format string of a location.
fn template_of(location: &DestLoc) -> (r: &String)
    ensures
        r@ == model::location_template(location@),
{
    match location {
        DestLoc::Folder(path) => path,
    }
}

/// The models of a list of expanded sources.
pub open spec fn source_views(v: Seq<ExpandedSource>) -> Seq<ExpandedSourceView> {
    v.map_values(|s: ExpandedSource| s@)
}

/// The models of a list of expanded locations.
pub open spec fn dest_views(v: Seq<ExpandedDest>) -> Seq<PathView> {
    v.map_values(|d: ExpandedDest| d@)
}

impl DestFormatted {
    /// What has to be looked up on disk: one query for each source, in the
    /// order of the sources' names.
    pub fn queries(&self) -> (r: Vec<Query>)
        ensures
            query_views(r@) == model::queries_for(self@.root_dir, self@.sources),
    {
        let n: usize = self.sources.len();
        let mut out: Vec<Query> = Vec::new();
        let mut i: usize = 0;
        while i < n
            invariant
                i <= n,
                n == self.sources.items().len(),
                out@.len() == i,
                forall|j: int|
                    0 <= j < i ==> (#[trigger] out@[j])@ == model::query_for(
                        self.root_dir@,
                        self.sources.views()[j],
                    ),
            decreases n - i,
        {
            out.push(query_for(&self.root_dir, self.sources.item(i)));
            i += 1;
        }
        assert(query_views(out@) =~= model::queries_for(self@.root_dir, self@.sources));
        out
    }

    /// Expands every source under the answer at its position. The first
    /// source that fails decides the failure.
    pub fn expand_sources(sources: &NameMap<Source>, root_dir: &FilePath, answers: &Vec<Answer>) -> (r:
        Result<NameMap<ExpandedSource>, FileMapError>)
        ensures
            match r {
                Ok(m) => m.names() == sources.names() && model::expand_sources(
                    root_dir@,
                    sources.names(),
                    sources.views(),
                    answer_views(answers@),
                ) == Ok::<Seq<ExpandedSourceView>, FileMapFault>(m.views()),
                Err(e) => model::expand_sources(
                    root_dir@,
                    sources.names(),
                    sources.views(),
                    answer_views(answers@),
                ) == Err::<Seq<ExpandedSourceView>, FileMapFault>(e@),
            },
    {
        let n: usize = sources.len();
        let ghost outcomes = model::source_outcomes(
            root_dir@,
            sources.names(),
            sources.views(),
            answer_views(answers@),
        );
        let mut expanded: Vec<ExpandedSource> = Vec::new();
        let mut i: usize = 0;
        assert(outcomes.take(0) =~= Seq::empty());
        assert(source_views(expanded@) =~= Seq::empty());
        while i < n
            invariant
                i <= n,
                n == sources.names().len(),
                n == sources.items().len(),
                outcomes == model::source_outcomes(
                    root_dir@,
                    sources.names(),
                    sources.views(),
                    answer_views(answers@),
                ),
                expanded@.len() == i,
                collect(outcomes.take(i as int)) == Ok::<
                    Seq<ExpandedSourceView>,
                    FileMapFault,
                >(source_views(expanded@)),
            decreases n - i,
        {
            let answer = if i < answers.len() {
                Some(&answers[i])
            } else {
                None
            };
            proof {
                lemma_collect_next(outcomes, i as int);
            }
            match expand_source(root_dir, sources.name(i), sources.item(i), answer) {
                Ok(e) => {
                    let ghost before = expanded@;
                    expanded.push(e);
                    assert(source_views(expanded@) =~= source_views(before).push(e@));
                },
                Err(e) => {
                    proof {
                        lemma_collect_failure_stays(outcomes, i + 1);
                    }
                    return Err(e);
                },
            }
            i += 1;
        }
        assert(outcomes.take(n as int) =~= outcomes);
        let m = sources.with_items(expanded);
        assert(m.views() =~= source_views(expanded@));
        Ok(m)
    }

    /// Fills in the path of every location, with the user's name bound to
    /// `username`, and places it under `root_dir`. The first location that
    /// fails decides the failure.
    pub fn expand_dests(dests: &NameMap<DestLoc>, root_dir: &FilePath, username: &str) -> (r: Result<
        NameMap<ExpandedDest>,
        FileMapError,
    >)
        ensures
            match r {
                Ok(m) => m.names() == dests.names() && model::expand_dests_from(
                    root_dir@,
                    model::location_outcomes(dests.views(), username@),
                ) == Ok::<Seq<PathView>, FileMapFault>(m.views()),
                Err(e) => model::expand_dests_from(
                    root_dir@,
                    model::location_outcomes(dests.views(), username@),
                ) == Err::<Seq<PathView>, FileMapFault>(e@),
            },
    {
        let n: usize = dests.len();
        let ghost filled = model::location_outcomes(dests.views(), username@);
        let ghost outcomes = filled.map_values(
            |o: Result<Seq<char>, TemplateFault>|
                model::place_location(root_dir@, o),
        );
        let mut placed: Vec<ExpandedDest> = Vec::new();
        let mut i: usize = 0;
        assert(outcomes.take(0) =~= Seq::empty());
        assert(dest_views(placed@) =~= Seq::empty());
        while i < n
            invariant
                i <= n,
                n == dests.names().len(),
                n == dests.items().len(),
                filled == model::location_outcomes(dests.views(), username@),
                outcomes == filled.map_values(
                    |o: Result<Seq<char>, TemplateFault>|
                        model::place_location(root_dir@, o),
                ),
                placed@.len() == i,
                collect(outcomes.take(i as int)) == Ok::<Seq<PathView>, FileMapFault>(
                    dest_views(placed@),
                ),
            decreases n - i,
        {
            proof {
                lemma_collect_next(outcomes, i as int);
            }
            let outcome = substitute(template_of(dests.item(i)).as_str(), "username", username);
            match place_location(root_dir, outcome) {
                Ok(d) => {
                    let ghost before = placed@;
                    placed.push(d);
                    assert(dest_views(placed@) =~= dest_views(before).push(d@));
                },
                Err(e) => {
                    proof {
                        lemma_collect_failure_stays(outcomes, i + 1);
                    }
                    return Err(e);
                },
            }
            i += 1;
        }
        assert(outcomes.take(n as int) =~= outcomes);
        let m = dests.with_items(placed);
        assert(m.views() =~= dest_views(placed@));
        Ok(m)
    }

    /// Expands the sources under the answers, one answer for each query of
    /// [`DestFormatted::queries`] in the same order, and places the
    /// locations under the destination folder.
    pub fn expand_paths(self, answers: &Vec<Answer>) -> (r: Result<PathsExpanded, FileMapError>)
        ensures
            result_view(r) == model::paths_expanded(self@, answer_views(answers@)),
    {
        let sources = match Self::expand_sources(&self.sources, &self.root_dir, answers) {
            Ok(m) => m,
            Err(e) => {
                return Err(e);
            },
        };
        let dests = match Self::expand_dests(&self.dests, &self.dest_dir, self.username.as_str()) {
            Ok(m) => m,
            Err(e) => {
                return Err(e);
            },
        };
        Ok(
            PathsExpanded {
                root_dir: self.root_dir,
                dest_dir: self.dest_dir,
                archive: self.archive,
                sources,
                dests,
            },
        )
    }
}

} // verus!
