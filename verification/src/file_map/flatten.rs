//! From pairs of source and location to pairs of files: each file of a
//! source goes to the path it has relative to the source's base, under the
//! location.

use vstd::prelude::*;
use crate::error::{result_view, FileMapError, FileMapFault};
use crate::file_map::expand::anchored;
use crate::file_map::model;
use crate::file_map::model::FileMapView;
use crate::file_map::pair::{paired_views, LocationsPaired, Paired};
use crate::path::{pair_views, paths, FilePath};

verus! {

/// The stage at which the map is a flat list of (source file, destination
/// file) pairs.
#[derive(Debug)]
pub struct LocationsFlattened {
    pub(crate) root_dir: FilePath,
    pub(crate) dest_dir: FilePath,
    pub(crate) archive: bool,
    pub(crate) pairs: Vec<(FilePath, FilePath)>,
}

impl View for LocationsFlattened {
    type V = FileMapView;

    open(crate) spec fn view(&self) -> FileMapView {
        FileMapView {
            root_dir: self.root_dir@,
            dest_dir: self.dest_dir@,
            archive: self.archive,
            pairs: pair_views(self.pairs@),
        }
    }
}

/// Appends to `flat` the files of one pair, each with where it goes.
fn flatten_pair(flat: &mut Vec<(FilePath, FilePath)>, pair: &Paired)
    ensures
        pair_views(final(flat)@) == pair_views(old(flat)@) + model::flatten_pair(pair@),
{
    let ghost before = pair_views(flat@);
    let ghost wanted = model::flatten_pair(pair@);
    let base = pair.source.base();
    let items = pair.source.items();
    let n: usize = items.len();
    let mut k: usize = 0;
    assert(pair_views(flat@) =~= before + wanted.take(0));
    while k < n
        invariant
            k <= n,
            n == items@.len(),
            base@ == pair@.source.base,
            paths(items@) == pair@.source.items,
            anchored(pair@.source),
            wanted == model::flatten_pair(pair@),
            pair_views(flat@) == before + wanted.take(k as int),
        decreases n - k,
    {
        let item = &items[k];
        assert(pair@.source.items[k as int] == item@);
        let dest = pair.dest.root().join(&item.after(base));
        let ghost so_far = flat@;
        flat.push((item.clone(), dest));
        proof {
            assert(pair_views(flat@) =~= pair_views(so_far).push((item@, dest@)));
            assert(wanted.take(k + 1) =~= wanted.take(k as int).push(wanted[k as int]));
            assert(pair_views(flat@) =~= before + wanted.take(k + 1));
        }
        k += 1;
    }
    assert(wanted.take(n as int) =~= wanted);
}

impl LocationsFlattened {
    /// The destination folder.
    pub fn dest_dir(&self) -> (r: &FilePath)
        ensures
            r@ == self@.dest_dir,
    {
        &self.dest_dir
    }

    /// The (source file, destination file) pairs.
    pub fn pairs(&self) -> (r: &Vec<(FilePath, FilePath)>)
        ensures
            pair_views(r@) == self@.pairs,
    {
        &self.pairs
    }
}

impl LocationsPaired {
    /// Lists every file of every source with the path it goes to, the
    /// sources in ascending order of their names, the files of a source in
    /// the order in which they were found. This stage cannot fail.
    pub fn flatten_locations(self) -> (r: Result<LocationsFlattened, FileMapError>)
        ensures
            result_view(r) == Ok::<FileMapView, FileMapFault>(
                model::locations_flattened(self@),
            ),
    {
        let ghost all = paired_views(self.pairs@);
        let mut flat: Vec<(FilePath, FilePath)> = Vec::new();
        let n: usize = self.pairs.len();
        let mut i: usize = 0;
        proof {
            assert(all.take(0) =~= Seq::empty());
            assert(pair_views(flat@) =~= Seq::empty());
        }
        while i < n
            invariant
                i <= n,
                n == self.pairs@.len(),
                all == paired_views(self.pairs@),
                pair_views(flat@) == model::flatten_pairs(all.take(i as int)),
            decreases n - i,
        {
            flatten_pair(&mut flat, &self.pairs[i]);
            proof {
                assert(all.take(i + 1).drop_last() =~= all.take(i as int));
                assert(all.take(i + 1).last() == self.pairs@[i as int]@);
            }
            i += 1;
        }
        assert(all.take(n as int) =~= all);
        Ok(
            LocationsFlattened {
                root_dir: self.root_dir,
                dest_dir: self.dest_dir,
                archive: self.archive,
                pairs: flat,
            },
        )
    }
}

} // verus!
