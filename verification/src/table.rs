//! A map from names to items that is kept in ascending order of its names,
//! so that walking it visits the entries in one fixed order.

use vstd::prelude::*;
use crate::seqs::lemma_filter_next;
use crate::text::{
    comes_before, lemma_precedes_irreflexive, lemma_precedes_total, lemma_precedes_transitive,
    precedes, same_text, texts,
};

verus! {

/// Whether each name comes strictly before all that follow it.
pub open spec fn ascending(names: Seq<Seq<char>>) -> bool {
    forall|i: int, j: int| 0 <= i < j < names.len() ==> precedes(names[i], names[j])
}

/// How many of `names` come strictly before `name`.
pub open spec fn rank(names: Seq<Seq<char>>, name: Seq<char>) -> int
    decreases names.len(),
{
    if names.len() == 0 {
        0
    } else {
        rank(names.drop_last(), name) + if precedes(names.last(), name) {
            1int
        } else {
            0int
        }
    }
}

/// The first position at which `name` stands in `names`, if it stands there.
pub open spec fn position(names: Seq<Seq<char>>, name: Seq<char>) -> Option<int> {
    if names.contains(name) {
        Some(names.index_of(name))
    } else {
        None
    }
}

/// Whether a name is not among `others`.
pub open spec fn lacks(others: Seq<Seq<char>>) -> spec_fn(Seq<char>) -> bool {
    |n: Seq<char>| !others.contains(n)
}

/// The names of `names` that `others` lacks, in order.
pub open spec fn unmatched(names: Seq<Seq<char>>, others: Seq<Seq<char>>) -> Seq<Seq<char>> {
    names.filter(lacks(others))
}

/// In an ascending list no name stands twice.
pub proof fn lemma_ascending_distinct(names: Seq<Seq<char>>)
    requires
        ascending(names),
    ensures
        names.no_duplicates(),
{
    assert forall|i: int, j: int| 0 <= i < names.len() && 0 <= j < names.len() && i != j implies names[i]
        != names[j] by {
        lemma_precedes_irreflexive(names[i], 0);
        if i < j {
            assert(precedes(names[i], names[j]));
        } else {
            assert(precedes(names[j], names[i]));
        }
    }
}

/// In an ascending list, a position that splits the names into those before
/// `name` and those not before it is the rank of `name`.
pub proof fn lemma_rank_is_split(names: Seq<Seq<char>>, name: Seq<char>, at: int)
    requires
        0 <= at <= names.len(),
        forall|j: int| 0 <= j < at ==> precedes(names[j], name),
        forall|j: int| at <= j < names.len() ==> !precedes(names[j], name),
    ensures
        rank(names, name) == at,
    decreases names.len(),
{
    if names.len() > 0 {
        let rest = names.drop_last();
        if at == names.len() {
            lemma_rank_is_split(rest, name, at - 1);
        } else {
            lemma_rank_is_split(rest, name, at);
        }
    }
}

/// What is kept of an ascending list of names ascends.
pub proof fn lemma_filter_ascending(names: Seq<Seq<char>>, pred: spec_fn(Seq<char>) -> bool)
    requires
        ascending(names),
    ensures
        ascending(names.filter(pred)),
    decreases names.len(),
{
    reveal(Seq::filter);
    if names.len() > 0 {
        let front = names.drop_last();
        assert(ascending(front)) by {
            assert forall|i: int, j: int| 0 <= i < j < front.len() implies precedes(
                front[i],
                front[j],
            ) by {
                assert(front[i] == names[i] && front[j] == names[j]);
            }
        }
        lemma_filter_ascending(front, pred);
        if pred(names.last()) {
            let kept = front.filter(pred);
            let all = names.filter(pred);
            assert(all == kept.push(names.last()));
            assert forall|i: int, j: int| 0 <= i < j < all.len() implies precedes(
                all[i],
                all[j],
            ) by {
                if j == all.len() - 1 {
                    assert(kept.contains(kept[i]));
                    front.lemma_filter_contains_rev(pred, kept[i]);
                    let k = choose|k: int| 0 <= k < front.len() && front[k] == kept[i];
                    assert(names[k] == kept[i]);
                } else {
                    assert(all[i] == kept[i] && all[j] == kept[j]);
                }
            }
        }
    }
}

/// The names that are kept are the names that pass.
pub proof fn lemma_filter_set(names: Seq<Seq<char>>, pred: spec_fn(Seq<char>) -> bool)
    ensures
        names.filter(pred).to_set() == names.to_set().filter(pred),
{
    let kept = names.filter(pred);
    assert forall|x: Seq<char>| kept.to_set().contains(x) <==> names.to_set().filter(pred).contains(
        x,
    ) by {
        if kept.contains(x) {
            names.lemma_filter_contains_rev(pred, x);
            let i = choose|i: int| 0 <= i < kept.len() && kept[i] == x;
            names.lemma_filter_pred(pred, i);
        }
        if names.contains(x) && pred(x) {
            let i = choose|i: int| 0 <= i < names.len() && names[i] == x;
            names.lemma_filter_contains(pred, i);
        }
    }
    assert(kept.to_set() =~= names.to_set().filter(pred));
}

/// A map from names to items, walked in ascending order of the names.
#[derive(Debug, PartialEq, Eq)]
pub struct NameMap<V> {
    entries: Vec<(String, V)>,
}

impl<V> NameMap<V> {
    /// The names, in the order in which the map is walked.
    pub closed spec fn names(&self) -> Seq<Seq<char>> {
        Seq::new(self.entries@.len(), |i: int| self.entries@[i].0@)
    }

    /// The items, each at the position of its name.
    pub closed spec fn items(&self) -> Seq<V> {
        Seq::new(self.entries@.len(), |i: int| self.entries@[i].1)
    }

    #[verifier::type_invariant]
    spec fn sorted(&self) -> bool {
        ascending(self.names())
    }

    /// There are as many items as names.
    pub proof fn lemma_lengths(&self)
        ensures
            self.names().len() == self.items().len(),
    {
    }

    /// The empty map.
    pub fn new() -> (r: Self)
        ensures
            r.names() == Seq::<Seq<char>>::empty(),
            r.items() == Seq::<V>::empty(),
    {
        let r = NameMap { entries: Vec::new() };
        assert(r.names() =~= Seq::<Seq<char>>::empty());
        assert(r.items() =~= Seq::<V>::empty());
        r
    }

    /// The number of entries. The names are known to ascend.
    pub fn len(&self) -> (n: usize)
        ensures
            n == self.names().len(),
            n == self.items().len(),
            ascending(self.names()),
    {
        proof {
            use_type_invariant(&*self);
        }
        self.entries.len()
    }

    /// The name at position `i`.
    pub fn name(&self, i: usize) -> (r: &String)
        requires
            i < self.names().len(),
        ensures
            r@ == self.names()[i as int],
    {
        &self.entries[i].0
    }

    /// The item at position `i`.
    pub fn item(&self, i: usize) -> (r: &V)
        requires
            i < self.items().len(),
        ensures
            *r == self.items()[i as int],
    {
        &self.entries[i].1
    }

    /// The position of `name`, if the map holds it.
    pub fn find(&self, name: &str) -> (r: Option<usize>)
        ensures
            match r {
                Some(i) => position(self.names(), name@) == Some(i as int) && i < self.names().len(),
                None => position(self.names(), name@).is_none(),
            },
    {
        proof {
            use_type_invariant(&*self);
            lemma_ascending_distinct(self.names());
        }
        let n: usize = self.entries.len();
        let mut i: usize = 0;
        while i < n
            invariant
                i <= n,
                n == self.entries@.len(),
                n == self.names().len(),
                self.names().no_duplicates(),
                forall|j: int| 0 <= j < i ==> self.names()[j] != name@,
            decreases n - i,
        {
            if same_text(self.entries[i].0.as_str(), name) {
                proof {
                    let names = self.names();
                    assert(names[i as int] == name@);
                    assert(names.contains(name@));
                    let k = names.index_of(name@);
                    assert(names[k] == name@);
                }
                return Some(i);
            }
            i += 1;
        }
        None
    }

    /// The position of `name`, which the map is known to hold.
    pub(crate) fn locate(&self, name: &str) -> (i: usize)
        requires
            self.names().contains(name@),
        ensures
            i < self.names().len(),
            i < self.items().len(),
            position(self.names(), name@) == Some(i as int),
    {
        proof {
            use_type_invariant(&*self);
            lemma_ascending_distinct(self.names());
        }
        let ghost names = self.names();
        let ghost at = names.index_of(name@);
        let n: usize = self.entries.len();
        let mut i: usize = 0;
        while !same_text(self.entries[i].0.as_str(), name)
            invariant
                names == self.names(),
                n == self.entries@.len(),
                0 <= at < n,
                names[at] == name@,
                i <= at,
            decreases at - i,
        {
            assert(names[i as int] != name@);
            i += 1;
        }
        assert(names[i as int] == name@);
        i
    }

    /// The item stored under `name`, if the map holds it.
    pub fn get(&self, name: &str) -> (r: Option<&V>)
        ensures
            match r {
                Some(v) => position(self.names(), name@).is_some() && *v == self.items()[position(
                    self.names(),
                    name@,
                ).unwrap()],
                None => position(self.names(), name@).is_none(),
            },
    {
        match self.find(name) {
            Some(i) => Some(&self.entries[i].1),
            None => None,
        }
    }

    /// Stores `item` under `name`. A name that the map already holds keeps
    /// its place and gets the new item, and the old item is returned; a new
    /// name is put where the order asks for it.
    pub fn insert(&mut self, name: String, item: V) -> (r: Option<V>)
        ensures
            match position(old(self).names(), name@) {
                Some(i) => {
                    &&& r == Some(old(self).items()[i])
                    &&& final(self).names() == old(self).names()
                    &&& final(self).items() == old(self).items().update(i, item)
                },
                None => {
                    &&& r.is_none()
                    &&& final(self).names() == old(self).names().insert(
                        rank(old(self).names(), name@),
                        name@,
                    )
                    &&& final(self).items() == old(self).items().insert(
                        rank(old(self).names(), name@),
                        item,
                    )
                },
            },
    {
        proof {
            use_type_invariant(&*self);
        }
        let ghost names = self.names();
        let ghost items = self.items();
        let mut entries: Vec<(String, V)> = Vec::new();
        std::mem::swap(&mut entries, &mut self.entries);
        assert(self.names() =~= Seq::<Seq<char>>::empty());
        let n: usize = entries.len();
        let mut i: usize = 0;
        while i < n && comes_before(entries[i].0.as_str(), name.as_str())
            invariant
                i <= n,
                n == entries@.len(),
                names == Seq::new(entries@.len(), |k: int| entries@[k].0@),
                forall|j: int| 0 <= j < i ==> precedes(names[j], name@),
            decreases n - i,
        {
            i += 1;
        }
        proof {
            // Everything from `i` on does not come before `name`.
            assert forall|j: int| i <= j < names.len() implies !precedes(names[j], name@) by {
                if j > i && precedes(names[j], name@) {
                    assert(precedes(names[i as int], names[j]));
                    lemma_precedes_transitive(names[i as int], names[j], name@, 0);
                }
            }
            lemma_rank_is_split(names, name@, i as int);
            lemma_ascending_distinct(names);
            assert forall|j: int| 0 <= j < i implies names[j] != name@ by {
                lemma_precedes_irreflexive(name@, 0);
            }
        }
        if i < n && same_text(entries[i].0.as_str(), name.as_str()) {
            proof {
                assert(names[i as int] == name@);
                assert(names.contains(name@));
                let k = names.index_of(name@);
                assert(names[k] == name@);
            }
            entries.push((name, item));
            let old_entry = entries.swap_remove(i);
            proof {
                let next = NameMap::<V> { entries };
                assert(next.names() =~= names);
            }
            self.entries = entries;
            assert(self.names() =~= names);
            assert(self.items() =~= items.update(i as int, item));
            Some(old_entry.1)
        } else {
            proof {
                assert forall|j: int| i <= j < names.len() implies names[j] != name@ && precedes(
                    name@,
                    names[j],
                ) by {
                    if j > i {
                        assert(precedes(names[i as int], names[j]));
                    }
                    lemma_precedes_total(names[i as int], name@, 0);
                    if j > i {
                        lemma_precedes_total(names[j], name@, 0);
                        lemma_precedes_irreflexive(name@, 0);
                    }
                }
                assert(!names.contains(name@));
            }
            entries.insert(i, (name, item));
            proof {
                let after = Seq::new(entries@.len(), |k: int| entries@[k].0@);
                assert(after =~= names.insert(i as int, name@));
                assert forall|a: int, b: int| 0 <= a < b < after.len() implies precedes(
                    after[a],
                    after[b],
                ) by {
                    if a < i && b == i {
                    } else if a == i {
                        assert(after[b] == names[b - 1]);
                    } else if a < i && b > i {
                        assert(after[a] == names[a]);
                        assert(after[b] == names[b - 1]);
                    } else if a < i && b < i {
                        assert(after[a] == names[a]);
                        assert(after[b] == names[b]);
                    } else {
                        assert(after[a] == names[a - 1]);
                        assert(after[b] == names[b - 1]);
                    }
                }
                let next = NameMap::<V> { entries };
                assert(next.names() =~= after);
            }
            self.entries = entries;
            assert(self.names() =~= names.insert(i as int, name@));
            assert(self.items() =~= items.insert(i as int, item));
            None
        }
    }
}

impl<V> NameMap<V> {
    /// A map with the names of this one and the given items, the item at
    /// each position under the name at that position.
    pub fn with_items<W>(&self, items: Vec<W>) -> (r: NameMap<W>)
        requires
            items@.len() == self.names().len(),
        ensures
            r.names() == self.names(),
            r.items() == items@,
    {
        proof {
            use_type_invariant(&*self);
        }
        let ghost given = items@;
        let mut entries: Vec<(String, W)> = Vec::new();
        for item in it: items
            invariant
                given.len() == self.names().len(),
                given.len() == self.entries@.len(),
                it.seq() == given,
                entries@.len() == it.index(),
                forall|j: int| 0 <= j < entries@.len() ==> (#[trigger] entries@[j]).0@ == self.names()[j],
                forall|j: int| 0 <= j < entries@.len() ==> (#[trigger] entries@[j]).1 == given[j],
        {
            let i: usize = entries.len();
            entries.push((self.entries[i].0.clone(), item));
        }
        let r = NameMap { entries };
        assert(r.names() =~= self.names());
        assert(r.items() =~= given);
        r
    }
}

impl<V> NameMap<V> {
    /// The names of this map that `others` does not hold, in order.
    pub fn names_lacking<W>(&self, others: &NameMap<W>) -> (r: Vec<String>)
        ensures
            texts(r@) == unmatched(self.names(), others.names()),
    {
        let n: usize = self.len();
        let ghost all = self.names();
        let ghost lacking = lacks(others.names());
        let mut out: Vec<String> = Vec::new();
        let mut i: usize = 0;
        proof {
            reveal(Seq::filter);
            assert(all.take(0) =~= Seq::empty());
            assert(texts(out@) =~= all.take(0).filter(lacking));
        }
        while i < n
            invariant
                i <= n,
                n == all.len(),
                all == self.names(),
                lacking == lacks(others.names()),
                texts(out@) == all.take(i as int).filter(lacking),
            decreases n - i,
        {
            proof {
                lemma_filter_next(all, lacking, i as int);
            }
            let name = self.name(i);
            if others.find(name.as_str()).is_none() {
                let ghost before = out@;
                out.push(name.clone());
                assert(texts(out@) =~= texts(before).push(name@));
            }
            i += 1;
        }
        assert(all.take(n as int) =~= all);
        out
    }
}

impl<V: View> NameMap<V> {
    /// The models of the items, each at the position of its name.
    pub open spec fn views(&self) -> Seq<V::V> {
        self.items().map_values(|v: V| v@)
    }
}

} // verus!
