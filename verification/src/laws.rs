//! What holds of the resolution as a whole, proved from the definitions of
//! its stages.

use vstd::prelude::*;
use crate::config::SourceView;
use crate::disk::AnswerView;
use crate::error::FileMapFault;
use crate::file_map::model::{
    absent, answer_at, built, dest_formatted, destination_of, escapes, existence_verified,
    expand_dests_from, expand_source, expand_sources, flatten_pair, in_scope, location_outcomes,
    locations_flattened, locations_paired, missing_from, name_outcome, outside, pair_names,
    pairs_of, paths_expanded, place_location, resolved, scope_verified, source_outcomes,
    BuilderView, ExpandedSourceView, FileMapView, LocationsPairedView, PairedView,
    PathsExpandedView,
};
use crate::path::{
    all_plain, clean, joined, lemma_joined_grows, lemma_joined_push, lemma_resolved_absolute,
    lemma_resolved_plain, lemma_resolved_plain_tail, parent_mark, plain, resolve_step,
    resolved_parts, PathView,
};
use crate::seqs::{lemma_collect_all, lemma_collect_failure_is_one, lemma_filter_empty};
use crate::table::{ascending, lacks, lemma_filter_ascending, lemma_filter_set, unmatched};
use crate::template::TemplateFault;
use crate::validate::verdict;

verus! {

/// Where sources and locations carry the same names, pairing succeeds: it
/// yields one pair for each name, in the order of the sources' names, and
/// the names of the pairs are exactly the names given.
pub proof fn lemma_pairing_succeeds(e: PathsExpandedView)
    requires
        e.source_names.to_set() == e.location_names.to_set(),
    ensures
        locations_paired(e) is Ok,
        pair_names(locations_paired(e)->Ok_0.pairs) == e.source_names,
        pair_names(locations_paired(e)->Ok_0.pairs).to_set() == e.location_names.to_set(),
{
    assert forall|i: int| 0 <= i < e.source_names.len() implies !lacks(e.location_names)(
        #[trigger] e.source_names[i],
    ) by {
        assert(e.source_names.to_set().contains(e.source_names[i]));
        assert(e.location_names.to_set().contains(e.source_names[i]));
    }
    assert forall|i: int| 0 <= i < e.location_names.len() implies !lacks(e.source_names)(
        #[trigger] e.location_names[i],
    ) by {
        assert(e.location_names.to_set().contains(e.location_names[i]));
        assert(e.source_names.to_set().contains(e.location_names[i]));
    }
    lemma_filter_empty(e.source_names, lacks(e.location_names));
    lemma_filter_empty(e.location_names, lacks(e.source_names));
    assert(pair_names(pairs_of(e)) =~= e.source_names);
}

/// Where a name stands on one side only, pairing fails, and the failure
/// lists exactly the names without a location and exactly the names without
/// a source: every such name, and no other. Of ascending names each list
/// ascends, so that it holds no name twice.
pub proof fn lemma_pairing_reports_all(e: PathsExpandedView)
    requires
        e.source_names.to_set() != e.location_names.to_set(),
    ensures
        locations_paired(e) == Err::<LocationsPairedView, FileMapFault>(
            FileMapFault::Pairing {
                missing_sources: unmatched(e.location_names, e.source_names),
                missing_destinations: unmatched(e.source_names, e.location_names),
            },
        ),
        unmatched(e.source_names, e.location_names).to_set() == e.source_names.to_set().difference(
            e.location_names.to_set(),
        ),
        unmatched(e.location_names, e.source_names).to_set()
            == e.location_names.to_set().difference(e.source_names.to_set()),
        ascending(e.source_names) ==> ascending(unmatched(e.source_names, e.location_names)),
        ascending(e.location_names) ==> ascending(unmatched(e.location_names, e.source_names)),
{
    let s = e.source_names;
    let d = e.location_names;
    lemma_filter_set(s, lacks(d));
    lemma_filter_set(d, lacks(s));
    assert(s.to_set().filter(lacks(d)) =~= s.to_set().difference(d.to_set()));
    assert(d.to_set().filter(lacks(s)) =~= d.to_set().difference(s.to_set()));
    if unmatched(s, d).len() == 0 && unmatched(d, s).len() == 0 {
        assert(unmatched(s, d).to_set() =~= Set::empty());
        assert(unmatched(d, s).to_set() =~= Set::empty());
        assert(s.to_set() =~= d.to_set()) by {
            assert forall|x: Seq<char>| s.to_set().contains(x) <==> d.to_set().contains(x) by {
                if s.to_set().contains(x) && !d.to_set().contains(x) {
                    assert(s.to_set().difference(d.to_set()).contains(x));
                }
                if d.to_set().contains(x) && !s.to_set().contains(x) {
                    assert(d.to_set().difference(s.to_set()).contains(x));
                }
            }
        }
    }
    if ascending(s) {
        lemma_filter_ascending(s, lacks(d));
    }
    if ascending(d) {
        lemma_filter_ascending(d, lacks(s));
    }
}

/// The stages before the pairing never report a pairing failure, and they
/// hand the names of the configuration on unchanged.
pub proof fn lemma_expansion_keeps_names(b: BuilderView, answers: Seq<AnswerView>)
    ensures
        !(dest_formatted(b, name_outcome(b)) is Err && dest_formatted(
            b,
            name_outcome(b),
        )->Err_0 is Pairing),
        dest_formatted(b, name_outcome(b)) is Ok ==> ({
            let d = dest_formatted(b, name_outcome(b))->Ok_0;
            &&& !(paths_expanded(d, answers) is Err && paths_expanded(d, answers)->Err_0 is Pairing)
            &&& paths_expanded(d, answers) is Ok ==> {
                &&& paths_expanded(d, answers)->Ok_0.source_names == b.config.source_names
                &&& paths_expanded(d, answers)->Ok_0.location_names
                    == b.config.destination.location_names
            }
        }),
{
    if dest_formatted(b, name_outcome(b)) is Ok {
        let d = dest_formatted(b, name_outcome(b))->Ok_0;
        let sources = expand_sources(d.root_dir, d.source_names, d.sources, answers);
        if sources is Err {
            let outcomes = source_outcomes(d.root_dir, d.source_names, d.sources, answers);
            let i = lemma_collect_failure_is_one(outcomes);
            assert(!(outcomes[i]->Err_0 is Pairing));
        } else {
            let filled = location_outcomes(d.locations, d.username);
            let placed = filled.map_values(
                |o: Result<Seq<char>, TemplateFault>| place_location(d.dest_dir, o),
            );
            if expand_dests_from(d.dest_dir, filled) is Err {
                let i = lemma_collect_failure_is_one(placed);
                assert(!(placed[i]->Err_0 is Pairing));
            }
        }
    }
}

/// Where the expansion of the sources succeeds, each source was expanded
/// under the answer at its own position, and under no other.
pub proof fn lemma_sources_expand_one_by_one(
    root: PathView,
    names: Seq<Seq<char>>,
    sources: Seq<SourceView>,
    answers: Seq<AnswerView>,
)
    requires
        expand_sources(root, names, sources, answers) is Ok,
    ensures
        expand_sources(root, names, sources, answers)->Ok_0.len() == sources.len(),
        forall|i: int|
            0 <= i < sources.len() ==> expand_source(
                root,
                names[i],
                #[trigger] sources[i],
                answer_at(answers, i),
            ) == Ok::<ExpandedSourceView, FileMapFault>(
                expand_sources(root, names, sources, answers)->Ok_0[i],
            ),
{
    let outcomes = source_outcomes(root, names, sources, answers);
    lemma_collect_all(outcomes);
    assert forall|i: int| 0 <= i < sources.len() implies expand_source(
        root,
        names[i],
        #[trigger] sources[i],
        answer_at(answers, i),
    ) == Ok::<ExpandedSourceView, FileMapFault>(
        expand_sources(root, names, sources, answers)->Ok_0[i],
    ) by {
        assert(outcomes[i] == expand_source(root, names[i], sources[i], answer_at(answers, i)));
    }
}

/// Where the sources and the locations of a configuration carry the same
/// names, the resolution never fails at the pairing: whenever the stages
/// before it succeed, it yields one pair for each name of the
/// configuration, in ascending order where the names are kept so.
pub proof fn lemma_matching_names_pair(
    b: BuilderView,
    answers: Seq<AnswerView>,
    existing: Seq<PathView>,
)
    requires
        b.config.source_names.to_set() == b.config.destination.location_names.to_set(),
    ensures
        !(built(b, answers, existing) is Err && built(b, answers, existing)->Err_0 is Pairing),
        dest_formatted(b, name_outcome(b)) is Ok && paths_expanded(
            dest_formatted(b, name_outcome(b))->Ok_0,
            answers,
        ) is Ok ==> ({
            let e = paths_expanded(dest_formatted(b, name_outcome(b))->Ok_0, answers)->Ok_0;
            &&& locations_paired(e) is Ok
            &&& pair_names(locations_paired(e)->Ok_0.pairs) == b.config.source_names
        }),
{
    lemma_expansion_keeps_names(b, answers);
    if dest_formatted(b, name_outcome(b)) is Ok {
        let d = dest_formatted(b, name_outcome(b))->Ok_0;
        if paths_expanded(d, answers) is Ok {
            let e = paths_expanded(d, answers)->Ok_0;
            lemma_pairing_succeeds(e);
        }
    }
}

/// Where a name of a configuration stands on one side only and the stages
/// before the pairing succeed, the resolution fails at the pairing, with
/// exactly the names of the configuration that have no source and exactly
/// those that have no location.
pub proof fn lemma_unmatched_names_fail(
    b: BuilderView,
    answers: Seq<AnswerView>,
    existing: Seq<PathView>,
)
    requires
        b.config.source_names.to_set() != b.config.destination.location_names.to_set(),
        dest_formatted(b, name_outcome(b)) is Ok,
        paths_expanded(dest_formatted(b, name_outcome(b))->Ok_0, answers) is Ok,
    ensures
        built(b, answers, existing) == Err::<FileMapView, FileMapFault>(
            FileMapFault::Pairing {
                missing_sources: unmatched(
                    b.config.destination.location_names,
                    b.config.source_names,
                ),
                missing_destinations: unmatched(
                    b.config.source_names,
                    b.config.destination.location_names,
                ),
            },
        ),
{
    lemma_expansion_keeps_names(b, answers);
    let d = dest_formatted(b, name_outcome(b))->Ok_0;
    let e = paths_expanded(d, answers)->Ok_0;
    lemma_pairing_reports_all(e);
}

/// A configuration that the validator accepts gets as far as the pairing
/// and through it: the destination's name can be filled in, and whenever
/// the expansion succeeds, every source is paired with its location.
pub proof fn lemma_valid_configuration_pairs(b: BuilderView, answers: Seq<AnswerView>)
    requires
        verdict(b.config, name_outcome(b)) is Ok,
    ensures
        dest_formatted(b, name_outcome(b)) is Ok,
        paths_expanded(dest_formatted(b, name_outcome(b))->Ok_0, answers) is Ok
            ==> locations_paired(
            paths_expanded(dest_formatted(b, name_outcome(b))->Ok_0, answers)->Ok_0,
        ) is Ok,
{
    lemma_expansion_keeps_names(b, answers);
}

/// The resolution is a function of the configuration, the root, and what
/// the filesystem showed: run twice on the same, it yields the same file
/// map, pair for pair in the same order, or the same failure.
pub proof fn lemma_build_repeatable(
    b: BuilderView,
    answers: Seq<AnswerView>,
    existing: Seq<PathView>,
    first: Result<FileMapView, FileMapFault>,
    second: Result<FileMapView, FileMapFault>,
)
    requires
        first == built(b, answers, existing),
        second == built(b, answers, existing),
    ensures
        first == second,
        first is Ok ==> first->Ok_0.pairs == second->Ok_0.pairs,
{
}

/// A file at `rel` below the base of its source goes to `rel` below the
/// location: the folders between the base and the file are kept.
pub proof fn lemma_flatten_keeps_structure(base: PathView, dest: PathView, rel: PathView)
    requires
        !rel.absolute,
    ensures
        base.join(rel).starts_with(base),
        destination_of(base.join(rel), base, dest) == dest.join(rel),
{
    let item = base.join(rel);
    assert(item.parts.take(base.parts.len() as int) =~= base.parts);
    assert(item.parts.skip(base.parts.len() as int) =~= rel.parts);
}

/// A source whose files are at `rels` below its base is flattened to those
/// files, each with the same relative path below the location.
pub proof fn lemma_flatten_pair(name: Seq<char>, base: PathView, dest: PathView, rels: Seq<PathView>)
    requires
        forall|i: int| 0 <= i < rels.len() ==> !(#[trigger] rels[i]).absolute,
    ensures
        flatten_pair(
            PairedView {
                name,
                source: ExpandedSourceView {
                    base,
                    items: rels.map_values(|r: PathView| base.join(r)),
                },
                dest,
            },
        ) == rels.map_values(|r: PathView| (base.join(r), dest.join(r))),
{
    let items = rels.map_values(|r: PathView| base.join(r));
    let p = PairedView { name, source: ExpandedSourceView { base, items }, dest };
    assert forall|i: int| 0 <= i < rels.len() implies flatten_pair(p)[i] == (
        base.join(rels[i]),
        dest.join(rels[i]),
    ) by {
        lemma_flatten_keeps_structure(base, dest, rels[i]);
    }
    assert(flatten_pair(p) =~= rels.map_values(|r: PathView| (base.join(r), dest.join(r))));
}

/// Every root is within itself.
pub proof fn lemma_root_is_in_scope(root: PathView)
    ensures
        root.within(root),
{
    let base = root.resolve().parts;
    assert(base.take(base.len() as int) =~= base);
}

/// A path whose resolution does not have the resolved root as this path or
/// an ancestor, by whole components, is out of scope.
pub proof fn lemma_resolved_outside_leaves_scope(root: PathView, path: PathView)
    requires
        !path.resolve().starts_with(root.resolve()),
    ensures
        !path.within(root),
{
}

/// For absolute paths the scope is exactly this: the resolved path has the
/// resolved root as itself or an ancestor, by whole components. A root
/// that holds no `.` and no `..` is its own resolution.
pub proof fn lemma_scope_of_absolute_paths(root: PathView, path: PathView)
    requires
        path.absolute,
    ensures
        path.within(root) <==> path.resolve().starts_with(root.resolve()),
        all_plain(root.parts) ==> root.resolve() == root,
{
    lemma_resolved_absolute(path.parts);
    if all_plain(root.parts) {
        lemma_resolved_plain(root.parts, root.absolute);
    }
}

/// A path that steps to the parent right below the root and goes on with
/// plain names, `root/../name/...`, is in scope only where that leads back
/// into the root: where `name` is the root's own last name, or where the
/// root is the root of the filesystem, which is its own parent. Everywhere
/// else it is out of scope.
pub proof fn lemma_parent_step_scope(root: PathView, name: Seq<char>, tail: Seq<Seq<char>>)
    requires
        plain(name),
        all_plain(tail),
    ensures
        (PathView {
            absolute: root.absolute,
            parts: root.parts + seq![parent_mark()] + seq![name] + tail,
        }).within(root) <==> ({
            let base = root.resolve().parts;
            ||| base.len() > 0 && base.last() == name
            ||| base.len() == 0 && root.absolute
        }),
{
    let abs = root.absolute;
    let path = PathView { absolute: abs, parts: root.parts + seq![parent_mark()] + seq![name] + tail };
    let base = resolved_parts(root.parts, abs);
    let up = root.parts + seq![parent_mark()];
    let rest = seq![name] + tail;
    assert(all_plain(rest)) by {
        assert forall|i: int| 0 <= i < rest.len() implies plain(#[trigger] rest[i]) by {
            if i > 0 {
                assert(rest[i] == tail[i - 1]);
            }
        }
    }
    assert(path.parts =~= up + rest);
    lemma_resolved_plain_tail(up, rest, abs);
    assert(up.drop_last() =~= root.parts);
    assert(up.last() == parent_mark());
    let stepped = resolve_step(base, parent_mark(), abs);
    assert(resolved_parts(up, abs) == stepped);
    let whole = stepped + rest;
    assert(path.resolve().parts == whole);
    assert(parent_mark().len() == 2);
    if base.len() > 0 && base.last() != parent_mark() {
        assert(stepped == base.drop_last());
        assert(whole[base.len() - 1] == name);
        if base.last() == name {
            assert(whole.take(base.len() as int) =~= base);
            if whole.len() > base.len() {
                assert(whole[base.len() as int] == tail[0]);
            }
        } else {
            assert(whole.take(base.len() as int)[base.len() - 1] != base[base.len() - 1]);
        }
    } else if abs {
        lemma_resolved_absolute(root.parts);
        assert(base.len() == 0);
        assert(whole.take(0) =~= base);
        assert(whole[0] == name);
    } else {
        assert(stepped == base.push(parent_mark()));
        assert(whole[base.len() as int] == parent_mark());
        if base.len() > 0 {
            assert(base.last() != name);
        }
    }
}

/// A path of plain names whose text begins with the text of the root, but
/// whose component at the root's last place is longer than the root's, is
/// out of scope: the comparison is by whole components, not by text.
pub proof fn lemma_longer_name_leaves_scope(
    root: PathView,
    more: Seq<char>,
    tail: Seq<Seq<char>>,
)
    requires
        root.parts.len() > 0,
        root.well_formed(),
        all_plain(root.parts),
        all_plain(tail),
        more.len() > 0,
    ensures
        ({
            let path = PathView {
                absolute: root.absolute,
                parts: root.parts.drop_last().push(root.parts.last() + more) + tail,
            };
            &&& root.render().is_prefix_of(path.render())
            &&& !path.within(root)
        }),
{
    let front = root.parts.drop_last();
    let last = root.parts.last();
    let longer = last + more;
    let head = front.push(longer);
    let path = PathView { absolute: root.absolute, parts: head + tail };
    let n = root.parts.len() as int;
    assert(clean(root.parts[n - 1]) && plain(root.parts[n - 1]));
    assert(plain(longer)) by {
        assert(longer.len() >= 2);
        if longer == parent_mark() {
            assert(longer[0] == last[0]);
            assert(more.len() == 1 && last.len() == 1);
            assert(last[0] == '.');
        }
    }
    assert(all_plain(path.parts)) by {
        assert forall|i: int| 0 <= i < path.parts.len() implies plain(#[trigger] path.parts[i]) by {
            if i < n - 1 {
                assert(path.parts[i] == root.parts[i]);
            } else if i == n - 1 {
                assert(path.parts[i] == longer);
            } else {
                assert(path.parts[i] == tail[i - n]);
            }
        }
    }
    lemma_resolved_plain(root.parts, root.absolute);
    lemma_resolved_plain(path.parts, path.absolute);
    assert(path.parts[n - 1] == longer);
    assert(longer.len() != last.len());
    assert(path.parts.take(n)[n - 1] != root.parts[n - 1]);
    assert(root.parts =~= front.push(last));
    lemma_joined_push(front, last);
    lemma_joined_push(front, longer);
    let a = joined(root.parts);
    let b = joined(head);
    let c = joined(head + tail);
    assert(b =~= a + more);
    lemma_joined_grows(head, tail);
    assert(a.is_prefix_of(c)) by {
        assert(a =~= b.subrange(0, a.len() as int));
        assert(b =~= c.subrange(0, b.len() as int));
        assert(a =~= c.subrange(0, a.len() as int));
    }
    if root.absolute {
        assert((seq!['/'] + a) =~= (seq!['/'] + c).subrange(0, a.len() as int + 1));
    }
}

/// The scope check succeeds exactly when every destination path is within
/// the destination folder, and then it hands the pairs on unchanged; when it
/// fails, it names exactly the destination paths that are not within, in
/// the order of the pairs.
pub proof fn lemma_scope_check_is_exact(m: FileMapView)
    ensures
        scope_verified(m) is Ok <==> in_scope(m),
        scope_verified(m) is Ok ==> scope_verified(m)->Ok_0 == m,
        scope_verified(m) is Err ==> scope_verified(m)->Err_0 == (FileMapFault::Scope {
            paths: m.pairs.filter(escapes(m.dest_dir)).map_values(
                |p: (PathView, PathView)| p.1.render(),
            ),
        }),
{
    lemma_filter_empty(m.pairs, escapes(m.dest_dir));
    assert(m.pairs.filter(escapes(m.dest_dir)).len() == outside(m.pairs, m.dest_dir).len());
}

/// For an absolute destination folder that holds no `.` and no `..`, the
/// scope check succeeds exactly when every destination path, with its `.`
/// and `..` resolved, has the folder as itself or one of its ancestors, by
/// whole components.
pub proof fn lemma_scope_check_by_resolution(m: FileMapView)
    requires
        m.dest_dir.absolute,
        all_plain(m.dest_dir.parts),
    ensures
        scope_verified(m) is Ok <==> (forall|i: int|
            0 <= i < m.pairs.len() ==> (#[trigger] m.pairs[i]).1.resolve().starts_with(m.dest_dir)),
{
    lemma_scope_check_is_exact(m);
    lemma_resolved_plain(m.dest_dir.parts, true);
    assert forall|i: int| 0 <= i < m.pairs.len() implies ((#[trigger] m.pairs[i]).1.within(
        m.dest_dir,
    ) <==> m.pairs[i].1.resolve().starts_with(m.dest_dir)) by {
        let d = m.pairs[i].1;
        if d.absolute {
            lemma_scope_of_absolute_paths(m.dest_dir, d);
        }
    }
}

/// The scope check fails as soon as one destination path lies outside the
/// destination folder, and names that path.
pub proof fn lemma_scope_rejects(m: FileMapView, i: int)
    requires
        0 <= i < m.pairs.len(),
        !m.pairs[i].1.within(m.dest_dir),
    ensures
        scope_verified(m) is Err,
        outside(m.pairs, m.dest_dir).contains(m.pairs[i].1.render()),
{
    let kept = m.pairs.filter(escapes(m.dest_dir));
    m.pairs.lemma_filter_contains(escapes(m.dest_dir), i);
    let k = choose|k: int| 0 <= k < kept.len() && kept[k] == m.pairs[i];
    assert(outside(m.pairs, m.dest_dir)[k] == m.pairs[i].1.render());
}

/// The existence check fails as soon as one source file is not on disk, and
/// names that file.
pub proof fn lemma_existence_rejects(m: FileMapView, existing: Seq<PathView>, i: int)
    requires
        0 <= i < m.pairs.len(),
        !existing.contains(m.pairs[i].0),
    ensures
        existence_verified(m, existing) is Err,
        absent(m.pairs, existing).contains(m.pairs[i].0.render()),
{
    let kept = m.pairs.filter(missing_from(existing));
    m.pairs.lemma_filter_contains(missing_from(existing), i);
    let k = choose|k: int| 0 <= k < kept.len() && kept[k] == m.pairs[i];
    assert(absent(m.pairs, existing)[k] == m.pairs[i].0.render());
}

/// In a file map that the stages after the expansion yield, every
/// destination path lies within the destination folder and every source
/// file is on disk.
pub proof fn lemma_resolved_is_checked(e: PathsExpandedView, existing: Seq<PathView>)
    requires
        resolved(e, existing) is Ok,
    ensures
        in_scope(resolved(e, existing)->Ok_0),
        forall|i: int|
            0 <= i < resolved(e, existing)->Ok_0.pairs.len() ==> existing.contains(
                (#[trigger] resolved(e, existing)->Ok_0.pairs[i]).0,
            ),
{
    let p = locations_paired(e)->Ok_0;
    let m = locations_flattened(p);
    lemma_filter_empty(m.pairs, escapes(m.dest_dir));
    lemma_filter_empty(m.pairs, missing_from(existing));
    assert(m.pairs.filter(escapes(m.dest_dir)).len() == outside(m.pairs, m.dest_dir).len());
    assert(m.pairs.filter(missing_from(existing)).len() == absent(m.pairs, existing).len());
}

} // verus!
