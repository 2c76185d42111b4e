//! A set of paths, kept in the order in which they were put in.
//!
//! It serves as the set of files that are being deleted, against which a
//! repeated request is recognised, and as the set of files that are
//! selected in a listing.

use vstd::prelude::*;
use crate::text::views;

verus! {

/// A set of paths.
pub struct PathSet {
    paths: Vec<String>,
}

/// `s` holds no text twice.
pub open spec fn distinct(s: Seq<Seq<char>>) -> bool {
    forall|i: int, j: int| 0 <= i < j < s.len() ==> s[i] != s[j]
}

impl View for PathSet {
    type V = Seq<Seq<char>>;

    closed spec fn view(&self) -> Seq<Seq<char>> {
        views(self.paths@)
    }
}

impl PathSet {
    /// No path occurs twice.
    pub closed spec fn wf(&self) -> bool {
        distinct(self@)
    }

    /// `path` is in the set.
    pub open spec fn has(&self, path: Seq<char>) -> bool {
        self@.contains(path)
    }

    /// The empty set.
    pub fn new() -> (set: PathSet)
        ensures
            set.wf(),
            set@.len() == 0,
    {
        PathSet { paths: Vec::new() }
    }

    /// How many paths are in the set.
    pub fn len(&self) -> (n: usize)
        ensures
            n == self@.len(),
    {
        self.paths.len()
    }

    /// Whether the set is empty.
    pub fn is_empty(&self) -> (empty: bool)
        ensures
            empty == (self@.len() == 0),
    {
        self.paths.len() == 0
    }

    /// Where `path` is kept, if it is in the set.
    fn position(&self, path: &String) -> (found: Option<usize>)
        ensures
            match found {
                Some(i) => i < self@.len() && self@[i as int] == path@,
                None => !self.has(path@),
            },
    {
        let mut i: usize = 0;
        while i < self.paths.len()
            invariant
                i <= self.paths.len(),
                forall|k: int| 0 <= k < i ==> (#[trigger] self@[k]) != path@,
            decreases self.paths.len() - i,
        {
            if self.paths[i] == *path {
                return Some(i);
            }
            i += 1;
        }
        None
    }

    /// Whether `path` is in the set.
    pub fn contains(&self, path: &String) -> (yes: bool)
        ensures
            yes == self.has(path@),
    {
        match self.position(path) {
            Some(i) => {
                assert(self@[i as int] == path@);
                true
            },
            None => false,
        }
    }

    /// Puts `path` into the set. Returns whether it was new; a path that is
    /// in the set already is not put in again.
    pub fn insert(&mut self, path: String) -> (fresh: bool)
        requires
            old(self).wf(),
        ensures
            final(self).wf(),
            fresh == !old(self).has(path@),
            final(self)@ == if fresh {
                old(self)@.push(path@)
            } else {
                old(self)@
            },
    {
        if self.contains(&path) {
            false
        } else {
            let ghost before = self@;
            self.paths.push(path);
            assert(self@ =~= before.push(path@));
            true
        }
    }

    /// Takes `path` out of the set. Returns whether it was in it.
    pub fn remove(&mut self, path: &String) -> (was_in: bool)
        requires
            old(self).wf(),
        ensures
            final(self).wf(),
            was_in == old(self).has(path@),
            !final(self).has(path@),
            forall|other: Seq<char>|
                other != path@ ==> (final(self).has(other) <==> old(self).has(other)),
            final(self)@.len() == old(self)@.len() - if was_in {
                1int
            } else {
                0int
            },
    {
        match self.position(path) {
            Some(i) => {
                let ghost before = self@;
                self.paths.remove(i);
                proof {
                    assert(self@ =~= before.remove(i as int));
                    assert(before[i as int] == path@);
                    assert forall|other: Seq<char>| other != path@ implies (self@.contains(other)
                        <==> before.contains(other)) by {
                        if before.contains(other) {
                            let k = choose|k: int| 0 <= k < before.len() && before[k] == other;
                            if k < i {
                                assert(self@[k] == other);
                            } else {
                                assert(self@[k - 1] == other);
                            }
                        }
                        if self@.contains(other) {
                            let k = choose|k: int| 0 <= k < self@.len() && self@[k] == other;
                            if k < i {
                                assert(before[k] == other);
                            } else {
                                assert(before[k + 1] == other);
                            }
                        }
                    }
                    assert(!self@.contains(path@)) by {
                        if self@.contains(path@) {
                            let k = choose|k: int| 0 <= k < self@.len() && self@[k] == path@;
                            if k < i {
                                assert(before[k] == path@);
                            } else {
                                assert(before[k + 1] == path@);
                            }
                        }
                    }
                }
                true
            },
            None => false,
        }
    }

    /// Empties the set.
    pub fn clear(&mut self)
        ensures
            final(self).wf(),
            final(self)@.len() == 0,
    {
        self.paths = Vec::new();
    }

    /// The paths in the set, in the order in which they were put in.
    pub fn paths(&self) -> (paths: &Vec<String>)
        ensures
            views(paths@) == self@,
    {
        &self.paths
    }
}

} // verus!
