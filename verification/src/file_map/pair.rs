//! Matching sources and locations by name.

use vstd::prelude::*;
use crate::error::{result_view, FileMapError};
use crate::file_map::expand::{ExpandedDest, ExpandedSource, PathsExpanded};
use crate::file_map::model;
use crate::file_map::model::{LocationsPairedView, PairedView};
use crate::path::FilePath;
use crate::seqs::lemma_filter_empty;
use crate::table::{ascending, lacks};

verus! {

/// A source together with the location of the same name.
#[derive(Debug)]
pub struct Paired {
    pub(crate) name: String,
    pub(crate) source: ExpandedSource,
    pub(crate) dest: ExpandedDest,
}

impl View for Paired {
    type V = PairedView;

    open(crate) spec fn view(&self) -> PairedView {
        PairedView { name: self.name@, source: self.source@, dest: self.dest@ }
    }
}

impl Paired {
    /// The name that source and location share.
    pub fn name(&self) -> (r: &String)
        ensures
            r@ == self@.name,
    {
        &self.name
    }

    /// The source.
    pub fn source(&self) -> (r: &ExpandedSource)
        ensures
            r@ == self@.source,
    {
        &self.source
    }

    /// The location.
    pub fn dest(&self) -> (r: &ExpandedDest)
        ensures
            r@ == self@.dest,
    {
        &self.dest
    }
}

/// The models of a list of pairs.
pub open spec fn paired_views(v: Seq<Paired>) -> Seq<PairedView> {
    v.map_values(|p: Paired| p@)
}

/// The stage at which sources and locations are matched by name.
#[derive(Debug)]
pub struct LocationsPaired {
    pub(crate) root_dir: FilePath,
    pub(crate) dest_dir: FilePath,
    pub(crate) archive: bool,
    pub(crate) pairs: Vec<Paired>,
}

impl View for LocationsPaired {
    type V = LocationsPairedView;

    open(crate) spec fn view(&self) -> LocationsPairedView {
        LocationsPairedView {
            root_dir: self.root_dir@,
            dest_dir: self.dest_dir@,
            archive: self.archive,
            pairs: paired_views(self.pairs@),
        }
    }
}

impl LocationsPaired {
    /// The pairs, in ascending order of their names.
    pub fn pairs(&self) -> (r: &Vec<Paired>)
        ensures
            paired_views(r@) == self@.pairs,
    {
        &self.pairs
    }
}

impl PathsExpanded {
    /// Pairs each source with the location of its name, in ascending order
    /// of the names. Fails if any name stands on one side only, and then
    /// lists every such name.
    pub fn pair_locations(self) -> (r: Result<LocationsPaired, FileMapError>)
        ensures
            result_view(r) == model::locations_paired(self@),
            r is Ok ==> model::pair_names(r->Ok_0@.pairs) == self@.source_names && ascending(
                self@.source_names,
            ),
    {
        let missing_destinations = self.sources.names_lacking(&self.dests);
        let missing_sources = self.dests.names_lacking(&self.sources);
        if missing_destinations.len() > 0 || missing_sources.len() > 0 {
            return Err(FileMapError::Pairing { missing_sources, missing_destinations });
        }
        let n: usize = self.sources.len();
        let ghost wanted = model::pairs_of(self@);
        let mut pairs: Vec<Paired> = Vec::new();
        let mut i: usize = 0;
        proof {
            lemma_filter_empty(self.sources.names(), lacks(self.dests.names()));
        }
        while i < n
            invariant
                i <= n,
                n == self.sources.names().len(),
                n == self.sources.items().len(),
                wanted == model::pairs_of(self@),
                forall|j: int|
                    0 <= j < n ==> !lacks(self.dests.names())(
                        #[trigger] self.sources.names()[j],
                    ),
                pairs@.len() == i,
                forall|j: int| 0 <= j < i ==> (#[trigger] pairs@[j])@ == wanted[j],
            decreases n - i,
        {
            let name = self.sources.name(i);
            proof {
                self.dests.lemma_lengths();
                assert(!lacks(self.dests.names())(self.sources.names()[i as int]));
            }
            let k = self.dests.locate(name.as_str());
            let dest = ExpandedDest { root: self.dests.item(k).root.clone() };
            pairs.push(Paired { name: name.clone(), source: self.sources.item(i).clone(), dest });
            i += 1;
        }
        assert(paired_views(pairs@) =~= wanted);
        assert(model::pair_names(wanted) =~= self.sources.names());
        Ok(
            LocationsPaired {
                root_dir: self.root_dir,
                dest_dir: self.dest_dir,
                archive: self.archive,
                pairs,
            },
        )
    }
}

} // verus!
