//! Slash-separated paths as a flag for "starts at the root" and a list of
//! components.
//!
//! A path is read from text by splitting at `/`; empty components and `.`
//! are dropped, `..` is kept as a component of its own. Where `..` is
//! resolved, it is resolved by the text alone and never against the
//! filesystem. All reasoning about containment is by whole components of
//! resolved paths.

use vstd::prelude::*;
use vstd::string::*;
use crate::text::{chars_of, join_texts, same_text, separated, texts};

verus! {

/// The mathematical model of a path.
pub struct PathView {
    /// Whether the path starts at the root.
    pub absolute: bool,
    /// The components, outermost first.
    pub parts: Seq<Seq<char>>,
}

/// The component that steps to the parent directory.
pub open spec fn parent_mark() -> Seq<char> {
    seq!['.', '.']
}

/// What a stretch of text between two separators contributes to a path:
/// nothing if it is empty or `.`, itself otherwise.
pub open spec fn kept(segment: Seq<char>) -> Seq<Seq<char>> {
    if segment.len() == 0 || is_dot(segment) {
        Seq::empty()
    } else {
        seq![segment]
    }
}

/// The components found from position `i` on, when the segment being read
/// began at `start`.
pub open spec fn segments(s: Seq<char>, start: int, i: int) -> Seq<Seq<char>>
    decreases s.len() - i,
{
    if i < start || start < 0 || i >= s.len() {
        if 0 <= start <= s.len() {
            kept(s.subrange(start, s.len() as int))
        } else {
            Seq::empty()
        }
    } else if s[i] == '/' {
        kept(s.subrange(start, i)) + segments(s, i + 1, i + 1)
    } else {
        segments(s, start, i + 1)
    }
}

/// The path that a text denotes.
pub open spec fn parse_path(s: Seq<char>) -> PathView {
    PathView { absolute: s.len() > 0 && s[0] == '/', parts: segments(s, 0, 0) }
}

/// The components written one after another with `/` between them.
pub open spec fn joined(parts: Seq<Seq<char>>) -> Seq<char> {
    separated(parts, seq!['/'])
}

/// Whether a component is one that reading a path can yield: it is not
/// empty, it is not `.`, and it holds no separator.
pub open spec fn clean(part: Seq<char>) -> bool {
    &&& part.len() > 0
    &&& !is_dot(part)
    &&& forall|i: int| 0 <= i < part.len() ==> part[i] != '/'
}

/// Whether every component is clean.
pub open spec fn all_clean(parts: Seq<Seq<char>>) -> bool {
    forall|i: int| 0 <= i < parts.len() ==> clean(#[trigger] parts[i])
}

/// Whether a component is `.`, which names the directory it stands in.
pub open spec fn is_dot(part: Seq<char>) -> bool {
    part.len() == 1 && part[0] == '.'
}

/// Whether a component names a directory or a file: it is neither `.` nor
/// `..`.
pub open spec fn plain(part: Seq<char>) -> bool {
    !is_dot(part) && part != parent_mark()
}

/// Whether every component is plain.
pub open spec fn all_plain(parts: Seq<Seq<char>>) -> bool {
    forall|i: int| 0 <= i < parts.len() ==> plain(#[trigger] parts[i])
}

/// The resolved components `done` with one component more: `.` changes
/// nothing; `..` takes the last name away, stays at the root of an absolute
/// path, and is kept where a relative path has no name left to take away;
/// any other component is appended.
pub open spec fn resolve_step(done: Seq<Seq<char>>, part: Seq<char>, absolute: bool) -> Seq<
    Seq<char>,
> {
    if is_dot(part) {
        done
    } else if part == parent_mark() {
        if done.len() > 0 && done.last() != parent_mark() {
            done.drop_last()
        } else if absolute {
            done
        } else {
            done.push(part)
        }
    } else {
        done.push(part)
    }
}

/// The components with `.` and `..` resolved, by the text alone: nothing
/// is looked up, so a symbolic link counts as the name it is written with.
pub open spec fn resolved_parts(parts: Seq<Seq<char>>, absolute: bool) -> Seq<Seq<char>>
    decreases parts.len(),
{
    if parts.len() == 0 {
        Seq::empty()
    } else {
        resolve_step(resolved_parts(parts.drop_last(), absolute), parts.last(), absolute)
    }
}

impl PathView {
    /// Whether the path is one that reading a text can yield.
    pub open spec fn well_formed(self) -> bool {
        all_clean(self.parts)
    }

    /// `other` appended to this path; an absolute `other` replaces it.
    pub open spec fn join(self, other: PathView) -> PathView {
        if other.absolute {
            other
        } else {
            PathView { absolute: self.absolute, parts: self.parts + other.parts }
        }
    }

    /// The path without its last component, if it has one.
    pub open spec fn parent(self) -> Option<PathView> {
        if self.parts.len() == 0 {
            None
        } else {
            Some(PathView { absolute: self.absolute, parts: self.parts.drop_last() })
        }
    }

    /// The last component as a relative path, if there is one.
    pub open spec fn file_name(self) -> Option<PathView> {
        if self.parts.len() == 0 {
            None
        } else {
            Some(PathView { absolute: false, parts: seq![self.parts.last()] })
        }
    }

    /// Whether `base` is this path or one of its ancestors, compared by
    /// whole components.
    pub open spec fn starts_with(self, base: PathView) -> bool {
        &&& self.absolute == base.absolute
        &&& base.parts.len() <= self.parts.len()
        &&& self.parts.take(base.parts.len() as int) == base.parts
    }

    /// The components that follow those of `base`, as a relative path.
    pub open spec fn relative_to(self, base: PathView) -> PathView {
        PathView { absolute: false, parts: self.parts.skip(base.parts.len() as int) }
    }

    /// The path with its `.` and `..` components resolved.
    pub open spec fn resolve(self) -> PathView {
        PathView { absolute: self.absolute, parts: resolved_parts(self.parts, self.absolute) }
    }

    /// Whether this path lies in the tree under `root`: with `.` and `..`
    /// resolved in both, `root` is this path or one of its ancestors by
    /// whole components. Of an absolute path that is all; a relative path
    /// may still begin with parent steps when resolved, and then it must
    /// not go on with one where `root` ends.
    pub open spec fn within(self, root: PathView) -> bool {
        let path = self.resolve();
        let base = root.resolve();
        &&& path.starts_with(base)
        &&& !(path.parts.len() > base.parts.len() && path.parts[base.parts.len() as int]
            == parent_mark())
    }

    /// The path written as text.
    pub open spec fn render(self) -> Seq<char> {
        if self.absolute {
            seq!['/'] + joined(self.parts)
        } else {
            joined(self.parts)
        }
    }
}

/// A path held as its components. Every component is clean, so that the
/// text of the path can be read back to the same path.
#[derive(Debug)]
pub struct FilePath {
    absolute: bool,
    parts: Vec<String>,
}

impl View for FilePath {
    type V = PathView;

    closed spec fn view(&self) -> PathView {
        PathView { absolute: self.absolute, parts: texts(self.parts@) }
    }
}

impl PartialEq for FilePath {
    fn eq(&self, other: &FilePath) -> (r: bool) {
        self.same(other)
    }
}

impl vstd::std_specs::cmp::PartialEqSpecImpl for FilePath {
    open spec fn obeys_eq_spec() -> bool {
        true
    }

    open spec fn eq_spec(&self, other: &FilePath) -> bool {
        self@ == other@
    }
}

impl Eq for FilePath {}

impl Clone for FilePath {
    fn clone(&self) -> (r: FilePath)
        ensures
            r@ == self@,
    {
        proof {
            use_type_invariant(&*self);
        }
        let parts = copy_texts(&self.parts, 0, self.parts.len());
        assert(texts(self.parts@).subrange(0, self.parts.len() as int) =~= texts(self.parts@));
        FilePath { absolute: self.absolute, parts }
    }
}

/// The models of a list of paths.
pub open spec fn paths(v: Seq<FilePath>) -> Seq<PathView> {
    v.map_values(|p: FilePath| p@)
}

/// The models of a list of pairs of paths.
pub open spec fn pair_views(v: Seq<(FilePath, FilePath)>) -> Seq<(PathView, PathView)> {
    v.map_values(|p: (FilePath, FilePath)| (p.0@, p.1@))
}

/// Whether a text is exactly `.`.
fn is_dot_mark(s: &str) -> (r: bool)
    ensures
        r == is_dot(s@),
{
    s.unicode_len() == 1 && s.get_char(0) == '.'
}

/// Whether a text is exactly `..`.
fn is_parent_mark(s: &str) -> (r: bool)
    ensures
        r == (s@ == parent_mark()),
{
    let r = s.unicode_len() == 2 && s.get_char(0) == '.' && s.get_char(1) == '.';
    proof {
        if r {
            assert(s@ =~= parent_mark());
        }
    }
    r
}

/// Appends to `parts` what the segment contributes.
fn keep_segment(parts: &mut Vec<String>, segment: &str)
    ensures
        texts(final(parts)@) == texts(old(parts)@) + kept(segment@),
{
    if segment.unicode_len() == 0 || is_dot_mark(segment) {
        assert(texts(parts@) =~= texts(parts@) + kept(segment@));
    } else {
        let ghost before = parts@;
        parts.push(String::from_str(segment));
        assert(texts(parts@) =~= texts(before) + kept(segment@));
    }
}

impl FilePath {
    #[verifier::type_invariant]
    spec fn clean_parts(&self) -> bool {
        self@.well_formed()
    }

    /// Reads a path from text.
    pub fn parse(s: &str) -> (r: FilePath)
        ensures
            r@ == parse_path(s@),
            r@.well_formed(),
    {
        proof {
            lemma_parse_well_formed(s@);
        }
        let chars = chars_of(s);
        let n: usize = chars.len();
        let mut parts: Vec<String> = Vec::new();
        let mut start: usize = 0;
        let mut i: usize = 0;
        assert(texts(parts@) + segments(s@, 0, 0) =~= segments(s@, 0, 0));
        while i < n
            invariant
                start <= i <= n,
                n == s@.len(),
                chars@ == s@,
                segments(s@, 0, 0) == texts(parts@) + segments(s@, start as int, i as int),
            decreases n - i,
        {
            if chars[i] == '/' {
                let ghost before = texts(parts@);
                let segment = s.substring_char(start, i);
                keep_segment(&mut parts, segment);
                assert(before + (kept(segment@) + segments(s@, i + 1, i + 1)) =~= (before + kept(
                    segment@,
                )) + segments(s@, i + 1, i + 1));
                start = i + 1;
            }
            i += 1;
        }
        let segment = s.substring_char(start, n);
        keep_segment(&mut parts, segment);
        let absolute = n > 0 && chars[0] == '/';
        FilePath { absolute, parts }
    }

    /// Writes the path as text. Reading the text gives the path back.
    pub fn render(&self) -> (r: String)
        ensures
            r@ == self@.render(),
            parse_path(r@) == self@,
            self@.well_formed(),
    {
        proof {
            use_type_invariant(&*self);
            lemma_round_trip(self@);
            reveal_strlit("/");
            assert("/"@ =~= seq!['/']);
        }
        let body = join_texts(&self.parts, "/");
        if self.absolute {
            String::from_str("/").concat(body.as_str())
        } else {
            body
        }
    }

    /// Whether the path starts at the root.
    pub fn is_absolute(&self) -> (r: bool)
        ensures
            r == self@.absolute,
    {
        self.absolute
    }

    /// The number of components.
    pub fn len(&self) -> (n: usize)
        ensures
            n == self@.parts.len(),
    {
        self.parts.len()
    }

    /// Whether two paths have the same components.
    pub fn same(&self, other: &FilePath) -> (r: bool)
        ensures
            r == (self@ == other@),
    {
        if self.absolute != other.absolute || self.parts.len() != other.parts.len() {
            assert(texts(self.parts@).len() != texts(other.parts@).len() || self.absolute
                != other.absolute);
            return false;
        }
        let r = self.starts_with(other);
        proof {
            let a = texts(self.parts@);
            assert(a.take(a.len() as int) =~= a);
        }
        r
    }

    /// `other` appended to this path; an absolute `other` replaces it.
    pub fn join(&self, other: &FilePath) -> (r: FilePath)
        ensures
            r@ == self@.join(other@),
    {
        if other.absolute {
            return other.clone();
        }
        proof {
            use_type_invariant(&*self);
            use_type_invariant(&*other);
            lemma_well_formed_kept(self@, other@);
        }
        let mut parts = copy_texts(&self.parts, 0, self.parts.len());
        let mut rest = copy_texts(&other.parts, 0, other.parts.len());
        let ghost head = parts@;
        let ghost tail = rest@;
        parts.append(&mut rest);
        assert(texts(parts@) =~= texts(head) + texts(tail));
        assert(texts(self.parts@).subrange(0, self.parts.len() as int) =~= texts(self.parts@));
        assert(texts(other.parts@).subrange(0, other.parts.len() as int) =~= texts(other.parts@));
        FilePath { absolute: self.absolute, parts }
    }

    /// The path without its last component, if it has one.
    pub fn parent(&self) -> (r: Option<FilePath>)
        ensures
            match r {
                Some(p) => self@.parent() == Some(p@),
                None => self@.parent().is_none(),
            },
    {
        let n: usize = self.parts.len();
        if n == 0 {
            return None;
        }
        proof {
            use_type_invariant(&*self);
            lemma_well_formed_kept(self@, self@);
        }
        let parts = copy_texts(&self.parts, 0, n - 1);
        assert(texts(self.parts@).subrange(0, n - 1) =~= texts(self.parts@).drop_last());
        Some(FilePath { absolute: self.absolute, parts })
    }

    /// The last component as a relative path, if there is one.
    pub fn file_name(&self) -> (r: Option<FilePath>)
        ensures
            match r {
                Some(p) => self@.file_name() == Some(p@),
                None => self@.file_name().is_none(),
            },
    {
        let n: usize = self.parts.len();
        if n == 0 {
            return None;
        }
        proof {
            use_type_invariant(&*self);
            lemma_well_formed_kept(self@, self@);
        }
        let parts = copy_texts(&self.parts, n - 1, n);
        assert(texts(self.parts@).subrange(n - 1, n as int) =~= seq![texts(self.parts@).last()]);
        Some(FilePath { absolute: false, parts })
    }

    /// Whether `base` is this path or one of its ancestors, compared by
    /// whole components.
    pub fn starts_with(&self, base: &FilePath) -> (r: bool)
        ensures
            r == self@.starts_with(base@),
    {
        let m: usize = base.parts.len();
        if self.absolute != base.absolute || m > self.parts.len() {
            return false;
        }
        let ghost mine = texts(self.parts@);
        let ghost theirs = texts(base.parts@);
        let mut i: usize = 0;
        while i < m
            invariant
                i <= m,
                m == base.parts.len(),
                m <= self.parts.len(),
                mine == texts(self.parts@),
                theirs == texts(base.parts@),
                forall|j: int| 0 <= j < i ==> mine[j] == theirs[j],
            decreases m - i,
        {
            if !same_text(self.parts[i].as_str(), base.parts[i].as_str()) {
                assert(mine.take(m as int)[i as int] != theirs[i as int]);
                return false;
            }
            i += 1;
        }
        assert(mine.take(m as int) =~= theirs);
        true
    }

    /// The components that follow those of `base`, as a relative path, if
    /// `base` is this path or one of its ancestors.
    pub fn relative_to(&self, base: &FilePath) -> (r: Option<FilePath>)
        ensures
            match r {
                Some(p) => self@.starts_with(base@) && p@ == self@.relative_to(base@),
                None => !self@.starts_with(base@),
            },
    {
        if !self.starts_with(base) {
            return None;
        }
        proof {
            use_type_invariant(&*self);
            use_type_invariant(&*base);
            lemma_well_formed_kept(self@, base@);
        }
        let n: usize = self.parts.len();
        let m: usize = base.parts.len();
        let parts = copy_texts(&self.parts, m, n);
        assert(texts(self.parts@).subrange(m as int, n as int) =~= texts(self.parts@).skip(
            m as int,
        ));
        Some(FilePath { absolute: false, parts })
    }

    /// The components that follow those of `base`, which is known to be
    /// this path or one of its ancestors.
    pub(crate) fn after(&self, base: &FilePath) -> (r: FilePath)
        requires
            self@.starts_with(base@),
        ensures
            r@ == self@.relative_to(base@),
    {
        proof {
            use_type_invariant(&*self);
            use_type_invariant(&*base);
            lemma_well_formed_kept(self@, base@);
        }
        let n: usize = self.parts.len();
        let m: usize = base.parts.len();
        let parts = copy_texts(&self.parts, m, n);
        assert(texts(self.parts@).subrange(m as int, n as int) =~= texts(self.parts@).skip(
            m as int,
        ));
        FilePath { absolute: false, parts }
    }

    /// The path with its `.` and `..` components resolved.
    pub fn resolve(&self) -> (r: FilePath)
        ensures
            r@ == self@.resolve(),
    {
        proof {
            use_type_invariant(&*self);
        }
        let ghost all = texts(self.parts@);
        let mut done: Vec<String> = Vec::new();
        let n: usize = self.parts.len();
        let mut i: usize = 0;
        assert(all.take(0) =~= Seq::<Seq<char>>::empty());
        assert(texts(done@) =~= Seq::<Seq<char>>::empty());
        while i < n
            invariant
                i <= n,
                n == self.parts@.len(),
                all == texts(self.parts@),
                all_clean(all),
                all_clean(texts(done@)),
                texts(done@) == resolved_parts(all.take(i as int), self.absolute),
            decreases n - i,
        {
            proof {
                assert(all.take(i + 1).drop_last() =~= all.take(i as int));
                assert(all.take(i + 1).last() == all[i as int]);
                assert(clean(all[i as int]));
            }
            let ghost before = texts(done@);
            let part = &self.parts[i];
            if is_dot_mark(part.as_str()) {
            } else if is_parent_mark(part.as_str()) {
                let k: usize = done.len();
                if k > 0 && !is_parent_mark(done[k - 1].as_str()) {
                    done.pop();
                    assert(texts(done@) =~= before.drop_last());
                } else if !self.absolute {
                    done.push(part.clone());
                    assert(texts(done@) =~= before.push(part@));
                }
            } else {
                done.push(part.clone());
                assert(texts(done@) =~= before.push(part@));
            }
            proof {
                let after = texts(done@);
                assert forall|j: int| 0 <= j < after.len() implies clean(#[trigger] after[j]) by {
                    if j < before.len() {
                        assert(after[j] == before[j]);
                    }
                }
            }
            i += 1;
        }
        assert(all.take(n as int) =~= all);
        FilePath { absolute: self.absolute, parts: done }
    }

    /// Whether this path lies in the tree under `root`.
    pub fn is_within(&self, root: &FilePath) -> (r: bool)
        ensures
            r == self@.within(root@),
    {
        let path = self.resolve();
        let base = root.resolve();
        if !path.starts_with(&base) {
            return false;
        }
        let m: usize = base.parts.len();
        !(path.parts.len() > m && is_parent_mark(path.parts[m].as_str()))
    }
}

/// Copies the strings at positions `from` up to `to`.
fn copy_texts(v: &Vec<String>, from: usize, to: usize) -> (r: Vec<String>)
    requires
        from <= to <= v.len(),
    ensures
        texts(r@) == texts(v@).subrange(from as int, to as int),
{
    let mut out: Vec<String> = Vec::new();
    let mut i: usize = from;
    while i < to
        invariant
            from <= i <= to,
            to <= v.len(),
            texts(out@) == texts(v@).subrange(from as int, i as int),
        decreases to - i,
    {
        let ghost before = out@;
        out.push(v[i].clone());
        assert(texts(out@) =~= texts(before).push(v@[i as int]@));
        assert(texts(out@) =~= texts(v@).subrange(from as int, i + 1));
        i += 1;
    }
    out
}

/// Reading on over characters that are no separators changes nothing.
pub proof fn lemma_segments_skip(s: Seq<char>, start: int, i: int, j: int)
    requires
        0 <= start <= i <= j <= s.len(),
        forall|k: int| i <= k < j ==> s[k] != '/',
    ensures
        segments(s, start, i) == segments(s, start, j),
    decreases j - i,
{
    if i < j {
        lemma_segments_skip(s, start, i + 1, j);
    }
}

/// Every component that reading yields is clean.
pub proof fn lemma_segments_clean(s: Seq<char>, start: int, i: int)
    requires
        0 <= start <= i <= s.len(),
        forall|k: int| start <= k < i ==> s[k] != '/',
    ensures
        all_clean(segments(s, start, i)),
    decreases s.len() - i,
{
    if i >= s.len() {
        let segment = s.subrange(start, s.len() as int);
        assert forall|k: int| 0 <= k < segment.len() implies segment[k] != '/' by {
            assert(segment[k] == s[start + k]);
        }
    } else if s[i] == '/' {
        let segment = s.subrange(start, i);
        assert forall|k: int| 0 <= k < segment.len() implies segment[k] != '/' by {
            assert(segment[k] == s[start + k]);
        }
        lemma_segments_clean(s, i + 1, i + 1);
        let head = kept(segment);
        let tail = segments(s, i + 1, i + 1);
        assert forall|k: int| 0 <= k < (head + tail).len() implies clean(
            #[trigger] (head + tail)[k],
        ) by {
            if k < head.len() {
                assert((head + tail)[k] == segment);
            } else {
                assert((head + tail)[k] == tail[k - head.len()]);
            }
        }
    } else {
        lemma_segments_clean(s, start, i + 1);
    }
}

/// The text of two or more components is the first of them, a separator,
/// and the text of the rest.
pub proof fn lemma_separated_front(parts: Seq<Seq<char>>, sep: Seq<char>)
    requires
        parts.len() >= 2,
    ensures
        separated(parts, sep) == parts[0] + sep + separated(parts.drop_first(), sep),
    decreases parts.len(),
{
    let rest = parts.drop_first();
    if parts.len() == 2 {
        assert(parts.drop_last() =~= seq![parts[0]]);
        assert(rest =~= seq![parts[1]]);
        assert(separated(parts.drop_last(), sep) == parts[0]);
        assert(separated(rest, sep) == parts[1]);
    } else {
        lemma_separated_front(parts.drop_last(), sep);
        assert(parts.drop_last().drop_first() =~= rest.drop_last());
        assert(parts.drop_last()[0] == parts[0]);
        assert(rest.last() == parts.last());
        assert(separated(parts, sep) =~= parts[0] + sep + separated(rest, sep));
    }
}

/// Reading the text of clean components, wherever that text begins, gives
/// the components back.
pub proof fn lemma_segments_of_joined(lead: Seq<char>, parts: Seq<Seq<char>>)
    requires
        parts.len() > 0,
        all_clean(parts),
    ensures
        segments(lead + joined(parts), lead.len() as int, lead.len() as int) == parts,
    decreases parts.len(),
{
    let s = lead + joined(parts);
    let start = lead.len() as int;
    let first = parts[0];
    assert(clean(first));
    if parts.len() == 1 {
        assert(joined(parts) == first);
        assert forall|k: int| start <= k < s.len() implies s[k] != '/' by {
            assert(s[k] == first[k - start]);
        }
        lemma_segments_skip(s, start, start, s.len() as int);
        assert(s.subrange(start, s.len() as int) =~= first);
        assert(segments(s, start, s.len() as int) =~= parts);
    } else {
        let rest = parts.drop_first();
        lemma_separated_front(parts, seq!['/']);
        let stop = start + first.len();
        assert(s =~= lead + first + seq!['/'] + joined(rest));
        assert forall|k: int| start <= k < stop implies s[k] != '/' by {
            assert(s[k] == first[k - start]);
        }
        lemma_segments_skip(s, start, start, stop);
        assert(s[stop] == '/');
        assert(s.subrange(start, stop) =~= first);
        let next = lead + first + seq!['/'];
        assert(all_clean(rest)) by {
            assert forall|k: int| 0 <= k < rest.len() implies clean(#[trigger] rest[k]) by {
                assert(rest[k] == parts[k + 1]);
            }
        }
        lemma_segments_of_joined(next, rest);
        assert(s =~= next + joined(rest));
        assert(segments(s, start, stop) == kept(first) + segments(s, stop + 1, stop + 1));
        assert(kept(first) + rest =~= parts);
    }
}

/// Reading the text of a well-formed path gives the path back.
pub proof fn lemma_round_trip(p: PathView)
    requires
        p.well_formed(),
    ensures
        parse_path(p.render()) == p,
{
    let s = p.render();
    if p.parts.len() == 0 {
        assert(joined(p.parts) =~= Seq::<char>::empty());
        if p.absolute {
            assert(s =~= seq!['/']);
            reveal_with_fuel(segments, 3);
            assert(s.subrange(0, 0) =~= Seq::<char>::empty());
            assert(s.subrange(1, 1) =~= Seq::<char>::empty());
            assert(segments(s, 0, 0) =~= Seq::<Seq<char>>::empty());
        } else {
            assert(s =~= Seq::<char>::empty());
            assert(s.subrange(0, 0) =~= Seq::<char>::empty());
            assert(segments(s, 0, 0) =~= Seq::<Seq<char>>::empty());
        }
        assert(parse_path(s).parts =~= p.parts);
    } else {
        let first = p.parts[0];
        assert(clean(first));
        if p.absolute {
            lemma_segments_of_joined(seq!['/'], p.parts);
            assert(s.subrange(0, 0) =~= Seq::<char>::empty());
            assert(segments(s, 0, 0) == kept(s.subrange(0, 0)) + segments(s, 1, 1));
            assert(segments(s, 0, 0) =~= p.parts);
        } else {
            lemma_segments_of_joined(Seq::empty(), p.parts);
            assert(s =~= Seq::<char>::empty() + joined(p.parts));
            if p.parts.len() == 1 {
                assert(s[0] == first[0]);
            } else {
                lemma_separated_front(p.parts, seq!['/']);
                assert(s[0] == first[0]);
            }
        }
    }
}

/// Reading a text gives a well-formed path.
pub proof fn lemma_parse_well_formed(s: Seq<char>)
    ensures
        parse_path(s).well_formed(),
{
    lemma_segments_clean(s, 0, 0);
}

/// Joining, taking the parent, the last component or what follows a base
/// keeps paths well formed.
pub proof fn lemma_well_formed_kept(p: PathView, q: PathView)
    requires
        p.well_formed(),
        q.well_formed(),
    ensures
        p.join(q).well_formed(),
        p.starts_with(q) ==> p.relative_to(q).well_formed(),
        p.parent() is Some ==> p.parent()->Some_0.well_formed(),
        p.file_name() is Some ==> p.file_name()->Some_0.well_formed(),
{
    assert forall|i: int| 0 <= i < (p.parts + q.parts).len() implies clean(
        #[trigger] (p.parts + q.parts)[i],
    ) by {
        if i < p.parts.len() {
            assert((p.parts + q.parts)[i] == p.parts[i]);
        } else {
            assert((p.parts + q.parts)[i] == q.parts[i - p.parts.len()]);
        }
    }
    if p.starts_with(q) {
        let rest = p.parts.skip(q.parts.len() as int);
        assert forall|i: int| 0 <= i < rest.len() implies clean(#[trigger] rest[i]) by {
            assert(rest[i] == p.parts[i + q.parts.len()]);
        }
    }
    if p.parts.len() > 0 {
        let front = p.parts.drop_last();
        assert forall|i: int| 0 <= i < front.len() implies clean(#[trigger] front[i]) by {
            assert(front[i] == p.parts[i]);
        }
        let last = seq![p.parts.last()];
        assert forall|i: int| 0 <= i < last.len() implies clean(#[trigger] last[i]) by {
            assert(last[i] == p.parts[p.parts.len() - 1]);
        }
    }
}

/// The text of a list with one more component.
pub proof fn lemma_joined_push(parts: Seq<Seq<char>>, last: Seq<char>)
    ensures
        joined(parts.push(last)) == (if parts.len() == 0 {
            last
        } else {
            joined(parts) + seq!['/'] + last
        }),
{
    assert(parts.push(last).drop_last() =~= parts);
    assert(joined(parts) == separated(parts, seq!['/']));
    assert(joined(parts.push(last)) == separated(parts.push(last), seq!['/']));
}

/// The text of a non-empty list of components begins the text of any list
/// that continues it.
pub proof fn lemma_joined_grows(head: Seq<Seq<char>>, tail: Seq<Seq<char>>)
    requires
        head.len() > 0,
    ensures
        joined(head).is_prefix_of(joined(head + tail)),
    decreases tail.len(),
{
    if tail.len() == 0 {
        assert(head + tail =~= head);
    } else {
        let shorter = tail.drop_last();
        lemma_joined_grows(head, shorter);
        assert(head + tail =~= (head + shorter).push(tail.last()));
        lemma_joined_push(head + shorter, tail.last());
        let a = joined(head);
        let b = joined(head + shorter);
        let c = joined(head + tail);
        assert(a =~= b.subrange(0, a.len() as int));
        assert(b =~= c.subrange(0, b.len() as int));
        assert(a =~= c.subrange(0, a.len() as int));
    }
}

/// Resolving components that end in plain ones resolves what comes before
/// them and leaves them as they are.
pub proof fn lemma_resolved_plain_tail(head: Seq<Seq<char>>, tail: Seq<Seq<char>>, absolute: bool)
    requires
        all_plain(tail),
    ensures
        resolved_parts(head + tail, absolute) == resolved_parts(head, absolute) + tail,
    decreases tail.len(),
{
    if tail.len() == 0 {
        assert(head + tail =~= head);
        assert(resolved_parts(head, absolute) + tail =~= resolved_parts(head, absolute));
    } else {
        let shorter = tail.drop_last();
        assert(all_plain(shorter)) by {
            assert forall|i: int| 0 <= i < shorter.len() implies plain(#[trigger] shorter[i]) by {
                assert(shorter[i] == tail[i]);
            }
        }
        lemma_resolved_plain_tail(head, shorter, absolute);
        assert((head + tail).drop_last() =~= head + shorter);
        assert((head + tail).last() == tail.last());
        assert(plain(tail[tail.len() - 1]));
        assert(resolved_parts(head, absolute) + tail =~= (resolved_parts(head, absolute)
            + shorter).push(tail.last()));
    }
}

/// Plain components are resolved as they stand.
pub proof fn lemma_resolved_plain(parts: Seq<Seq<char>>, absolute: bool)
    requires
        all_plain(parts),
    ensures
        resolved_parts(parts, absolute) == parts,
{
    lemma_resolved_plain_tail(Seq::empty(), parts, absolute);
    assert(Seq::<Seq<char>>::empty() + parts =~= parts);
    assert(resolved_parts(Seq::<Seq<char>>::empty() + parts, absolute) =~= parts);
}

/// Of an absolute path no parent step is left when it is resolved.
pub proof fn lemma_resolved_absolute(parts: Seq<Seq<char>>)
    ensures
        forall|i: int|
            0 <= i < resolved_parts(parts, true).len() ==> (#[trigger] resolved_parts(
                parts,
                true,
            )[i]) != parent_mark(),
    decreases parts.len(),
{
    if parts.len() > 0 {
        let done = resolved_parts(parts.drop_last(), true);
        lemma_resolved_absolute(parts.drop_last());
        let next = resolve_step(done, parts.last(), true);
        assert forall|i: int| 0 <= i < next.len() implies (#[trigger] next[i]) != parent_mark() by {
            if i < done.len() {
                assert(next[i] == done[i]);
            }
        }
    }
}

/// Of clean components those that are left when they are resolved are
/// clean.
pub proof fn lemma_resolved_clean(parts: Seq<Seq<char>>, absolute: bool)
    requires
        all_clean(parts),
    ensures
        all_clean(resolved_parts(parts, absolute)),
    decreases parts.len(),
{
    if parts.len() > 0 {
        let front = parts.drop_last();
        assert(all_clean(front)) by {
            assert forall|i: int| 0 <= i < front.len() implies clean(#[trigger] front[i]) by {
                assert(front[i] == parts[i]);
            }
        }
        lemma_resolved_clean(front, absolute);
        let done = resolved_parts(front, absolute);
        let next = resolve_step(done, parts.last(), absolute);
        assert(clean(parts[parts.len() - 1]));
        assert forall|i: int| 0 <= i < next.len() implies clean(#[trigger] next[i]) by {
            if i < done.len() {
                assert(next[i] == done[i]);
            }
        }
    }
}

} // verus!
