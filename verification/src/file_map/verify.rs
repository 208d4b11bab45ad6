//! The two checks that stand before a file map: every destination path
//! lies within the destination folder, and every source file exists.

use vstd::prelude::*;
use crate::error::{result_view, FileMapError};
use crate::file_map::flatten::LocationsFlattened;
use crate::file_map::model;
use crate::file_map::model::{in_scope, FileMapView};
use crate::file_map::FileMap;
use crate::path::{pair_views, paths, FilePath, PathView};
use crate::text::texts;
use crate::seqs::{lemma_filter_empty, lemma_filter_next};

verus! {

/// The stage at which every destination path is known to lie within the
/// destination folder.
#[derive(Debug)]
pub struct ScopeVerified {
    pub(crate) root_dir: FilePath,
    pub(crate) dest_dir: FilePath,
    pub(crate) archive: bool,
    pub(crate) pairs: Vec<(FilePath, FilePath)>,
}

impl View for ScopeVerified {
    type V = FileMapView;

    open(crate) spec fn view(&self) -> FileMapView {
        FileMapView {
            root_dir: self.root_dir@,
            dest_dir: self.dest_dir@,
            archive: self.archive,
            pairs: pair_views(self.pairs@),
        }
    }
}

/// Whether `path` is among `list`.
fn is_among(path: &FilePath, list: &Vec<FilePath>) -> (r: bool)
    ensures
        r == paths(list@).contains(path@),
{
    let n: usize = list.len();
    let mut i: usize = 0;
    while i < n
        invariant
            i <= n,
            n == list@.len(),
            forall|j: int| 0 <= j < i ==> paths(list@)[j] != path@,
        decreases n - i,
    {
        if list[i].same(path) {
            assert(paths(list@)[i as int] == path@);
            return true;
        }
        i += 1;
    }
    false
}

impl LocationsFlattened {
    /// Checks that every destination path lies within the destination
    /// folder: that, with `.` and `..` resolved, the folder is the path or
    /// one of its ancestors by whole components. Fails with all the paths
    /// that do not.
    pub fn verify_scope(self) -> (r: Result<ScopeVerified, FileMapError>)
        ensures
            result_view(r) == model::scope_verified(self@),
            r is Ok <==> in_scope(self@),
    {
        let ghost all = pair_views(self.pairs@);
        let ghost escaping = model::escapes(self.dest_dir@);
        let mut outside: Vec<String> = Vec::new();
        let n: usize = self.pairs.len();
        let mut i: usize = 0;
        proof {
            reveal(Seq::filter);
            assert(all.take(0) =~= Seq::empty());
            assert(texts(outside@) =~= model::outside(all.take(0), self.dest_dir@));
        }
        while i < n
            invariant
                i <= n,
                n == self.pairs@.len(),
                all == pair_views(self.pairs@),
                escaping == model::escapes(self.dest_dir@),
                texts(outside@) == model::outside(all.take(i as int), self.dest_dir@),
            decreases n - i,
        {
            proof {
                lemma_filter_next(all, escaping, i as int);
            }
            if !self.pairs[i].1.is_within(&self.dest_dir) {
                let ghost before = outside@;
                outside.push(self.pairs[i].1.render());
                assert(texts(outside@) =~= texts(before).push(all[i as int].1.render()));
                assert(texts(outside@) =~= model::outside(all.take(i + 1), self.dest_dir@));
            }
            i += 1;
        }
        assert(all.take(n as int) =~= all);
        proof {
            lemma_filter_empty(all, escaping);
            assert(all.filter(escaping).len() == texts(outside@).len());
        }
        if outside.len() > 0 {
            Err(FileMapError::Scope { paths: outside })
        } else {
            Ok(
                ScopeVerified {
                    root_dir: self.root_dir,
                    dest_dir: self.dest_dir,
                    archive: self.archive,
                    pairs: self.pairs,
                },
            )
        }
    }
}

impl ScopeVerified {
    #[verifier::type_invariant]
    pub(crate) open spec fn well_formed(&self) -> bool {
        in_scope(self@)
    }

    /// The (source file, destination file) pairs. Every destination file
    /// lies within the destination folder.
    pub fn pairs(&self) -> (r: &Vec<(FilePath, FilePath)>)
        ensures
            pair_views(r@) == self@.pairs,
            in_scope(self@),
    {
        proof {
            use_type_invariant(&*self);
        }
        &self.pairs
    }

    /// The source files, in the order of the pairs: what has to be looked
    /// for on disk before the last stage.
    pub fn sources(&self) -> (r: Vec<FilePath>)
        ensures
            paths(r@) == self@.pairs.map_values(|p: (PathView, PathView)| p.0),
    {
        let mut out: Vec<FilePath> = Vec::new();
        let n: usize = self.pairs.len();
        let mut i: usize = 0;
        while i < n
            invariant
                i <= n,
                n == self.pairs@.len(),
                out@.len() == i,
                forall|j: int| 0 <= j < i ==> (#[trigger] out@[j])@ == self.pairs@[j].0@,
            decreases n - i,
        {
            out.push(self.pairs[i].0.clone());
            i += 1;
        }
        assert(paths(out@) =~= self@.pairs.map_values(
            |p: (PathView, PathView)| p.0,
        ));
        out
    }

    /// Checks that every source file is among `existing`, the files that
    /// were found on disk. Fails with all the files that are not.
    pub fn verify_existence(self, existing: &Vec<FilePath>) -> (r: Result<FileMap, FileMapError>)
        ensures
            result_view(r) == model::existence_verified(self@, paths(existing@)),
            in_scope(self@),
    {
        proof {
            use_type_invariant(&self);
        }
        let ghost all = pair_views(self.pairs@);
        let ghost missing = model::missing_from(paths(existing@));
        let mut absent: Vec<String> = Vec::new();
        let n: usize = self.pairs.len();
        let mut i: usize = 0;
        proof {
            reveal(Seq::filter);
            assert(all.take(0) =~= Seq::empty());
            assert(texts(absent@) =~= model::absent(all.take(0), paths(existing@)));
        }
        while i < n
            invariant
                i <= n,
                n == self.pairs@.len(),
                all == pair_views(self.pairs@),
                missing == model::missing_from(paths(existing@)),
                texts(absent@) == model::absent(all.take(i as int), paths(existing@)),
            decreases n - i,
        {
            proof {
                lemma_filter_next(all, missing, i as int);
            }
            if !is_among(&self.pairs[i].0, existing) {
                let ghost before = absent@;
                absent.push(self.pairs[i].0.render());
                assert(texts(absent@) =~= texts(before).push(all[i as int].0.render()));
                assert(texts(absent@) =~= model::absent(all.take(i + 1), paths(existing@)));
            }
            i += 1;
        }
        assert(all.take(n as int) =~= all);
        if absent.len() > 0 {
            Err(FileMapError::NonexistentFiles { files: absent })
        } else {
            Ok(
                FileMap {
                    root_dir: self.root_dir,
                    dest_dir: self.dest_dir,
                    archive: self.archive,
                    map: self.pairs,
                },
            )
        }
    }
}

} // verus!
