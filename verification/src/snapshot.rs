//! An immutable point-in-time mapping from relative file path to file
//! content, used as prompt context. Built once per run by inserting each
//! readable file; keys stay unique by path.

use vstd::prelude::*;

verus! {

/// A codebase snapshot: file paths paired with their text contents.
///
/// The underlying order is whatever order insertion produced; nothing in
/// the pipeline depends on it.
pub struct Snapshot {
    entries: Vec<(String, String)>,
}

impl View for Snapshot {
    type V = Seq<(Seq<char>, Seq<char>)>;

    closed spec fn view(&self) -> Seq<(Seq<char>, Seq<char>)> {
        self.entries@.map_values(|e: (String, String)| (e.0@, e.1@))
    }
}

/// Whether some entry of `s` carries the path `k`.
pub open spec fn has_path(s: Seq<(Seq<char>, Seq<char>)>, k: Seq<char>) -> bool {
    exists|i: int| 0 <= i < s.len() && s[i].0 == k
}

impl Snapshot {
    /// Paths are unique: no two entries share one.
    pub open spec fn wf(&self) -> bool {
        forall|i: int, j: int| 0 <= i < j < self@.len() ==> self@[i].0 != self@[j].0
    }

    /// An empty snapshot, as a walk over a tree with no readable file
    /// yields one.
    pub fn new() -> (r: Snapshot)
        ensures
            r@ == Seq::<(Seq<char>, Seq<char>)>::empty(),
            r.wf(),
    {
        Snapshot { entries: Vec::new() }
    }

    pub fn len(&self) -> (r: usize)
        ensures
            r == self@.len(),
    {
        self.entries.len()
    }

    pub fn is_empty(&self) -> (r: bool)
        ensures
            r == (self@.len() == 0),
    {
        self.entries.len() == 0
    }

    /// The path of the entry at `i`.
    pub fn path_at(&self, i: usize) -> (r: &String)
        requires
            i < self@.len(),
        ensures
            r@ == self@[i as int].0,
    {
        &self.entries[i].0
    }

    /// The content of the entry at `i`.
    pub fn content_at(&self, i: usize) -> (r: &String)
        requires
            i < self@.len(),
        ensures
            r@ == self@[i as int].1,
    {
        &self.entries[i].1
    }

    /// Record `content` under `path`: a fresh path is appended, a path
    /// already present has its content replaced.
    pub fn insert(&mut self, path: String, content: String)
        requires
            old(self).wf(),
        ensures
            final(self).wf(),
            !has_path(old(self)@, path@) ==> final(self)@ == old(self)@.push(
                (path@, content@),
            ),
            has_path(old(self)@, path@) ==> (exists|i: int|
                0 <= i < old(self)@.len() && old(self)@[i].0 == path@ && final(self)@ == old(
                    self,
                )@.update(i, (path@, content@))),
    {
        let n = self.entries.len();
        let mut i: usize = 0;
        while i < n
            invariant
                0 <= i <= n,
                n == self@.len(),
                self == old(self),
                old(self).wf(),
                forall|j: int| 0 <= j < i ==> self@[j].0 != path@,
            decreases n - i,
        {
            if self.entries[i].0 == path {
                assert(self@[i as int].0 == path@);
                self.entries.set(i, (path, content));
                assert(self@ =~= old(self)@.update(i as int, (path@, content@)));
                assert forall|p: int, q: int| 0 <= p < q < self@.len() implies self@[p].0
                    != self@[q].0 by {
                    assert(self@.len() == old(self)@.len());
                    assert(old(self)@[p].0 != old(self)@[q].0);
                    assert(self@[p].0 == old(self)@[p].0);
                    assert(self@[q].0 == old(self)@[q].0);
                }
                return ;
            }
            i += 1;
        }
        assert(!has_path(self@, path@));
        self.entries.push((path, content));
        assert(self@ =~= old(self)@.push((path@, content@)));
    }

    /// The content recorded under `path`, if any.
    pub fn get(&self, path: &str) -> (r: Option<&String>)
        requires
            self.wf(),
        ensures
            (r is Some) == has_path(self@, path@),
            r matches Some(c) ==> (exists|i: int|
                0 <= i < self@.len() && self@[i].0 == path@ && self@[i].1 == c@),
    {
        let key = path.to_owned();
        let n = self.entries.len();
        let mut i: usize = 0;
        while i < n
            invariant
                0 <= i <= n,
                n == self@.len(),
                key@ == path@,
                forall|j: int| 0 <= j < i ==> self@[j].0 != path@,
            decreases n - i,
        {
            if self.entries[i].0 == key {
                assert(self@[i as int].0 == path@);
                return Some(&self.entries[i].1);
            }
            i += 1;
        }
        None
    }
}

} // verus!
