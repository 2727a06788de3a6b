//! The Override Database: a persistent mapping from a directory to the
//! toolchain pinned for it, together with the reason the pin exists.
//! Entries are kept strictly sorted by path, so paths are unique and
//! `list` is already in the stable display order.

use vstd::prelude::*;

use crate::strutil::{
    lemma_seq_lt_connected, lemma_seq_lt_irrefl, lemma_seq_lt_trans, seq_lt, str_eq, str_lt,
};

verus! {

/// One pinned toolchain: an absolute directory, the toolchain name, and
/// how the override came to exist (set by hand, or inherited).
#[derive(Debug, Clone)]
pub struct OverrideEntry {
    pub path: String,
    pub toolchain: String,
    pub reason: String,
}

/// Paths strictly increase along the sequence: sorted and duplicate-free.
pub open spec fn sorted_by_path(s: Seq<OverrideEntry>) -> bool {
    forall|i: int, j: int|
        0 <= i < j < s.len() ==> seq_lt(#[trigger] s[i].path@, #[trigger] s[j].path@)
}

/// Whether some entry carries exactly this path.
pub open spec fn has_path(s: Seq<OverrideEntry>, p: Seq<char>) -> bool {
    exists|i: int| 0 <= i < s.len() && (#[trigger] s[i]).path@ == p
}

/// The index of the entry carrying this path, when one exists.
pub open spec fn index_of_path(s: Seq<OverrideEntry>, p: Seq<char>) -> int {
    choose|i: int| 0 <= i < s.len() && (#[trigger] s[i]).path@ == p
}

/// The (toolchain, reason) registered for a path, if any.
pub open spec fn lookup(s: Seq<OverrideEntry>, p: Seq<char>) -> Option<(Seq<char>, Seq<char>)> {
    if has_path(s, p) {
        Some((s[index_of_path(s, p)].toolchain@, s[index_of_path(s, p)].reason@))
    } else {
        None
    }
}

/// In a sorted sequence a path occurs at most once.
proof fn lemma_sorted_unique(s: Seq<OverrideEntry>, p: Seq<char>, i: int, j: int)
    requires
        sorted_by_path(s),
        0 <= i < s.len(),
        0 <= j < s.len(),
        s[i].path@ == p,
        s[j].path@ == p,
    ensures
        i == j,
{
    lemma_seq_lt_irrefl(p);
}

/// What `lookup` returns for the path of the entry at a given index.
proof fn lemma_lookup_at(s: Seq<OverrideEntry>, i: int)
    requires
        sorted_by_path(s),
        0 <= i < s.len(),
    ensures
        lookup(s, s[i].path@) == Some((s[i].toolchain@, s[i].reason@)),
{
    let p = s[i].path@;
    assert(has_path(s, p));
    let k = index_of_path(s, p);
    lemma_sorted_unique(s, p, i, k);
}

/// The database itself. Its view is the sequence of entries.
#[derive(Debug)]
pub struct OverrideDb {
    entries: Vec<OverrideEntry>,
}

impl View for OverrideDb {
    type V = Seq<OverrideEntry>;

    closed spec fn view(&self) -> Seq<OverrideEntry> {
        self.entries@
    }
}

impl OverrideDb {
    /// A database with no overrides.
    pub fn new() -> (db: OverrideDb)
        ensures
            db@ == Seq::<OverrideEntry>::empty(),
            sorted_by_path(db@),
    {
        OverrideDb { entries: Vec::new() }
    }

    pub fn len(&self) -> (n: usize)
        ensures
            n == self@.len(),
    {
        self.entries.len()
    }

    pub fn get(&self, i: usize) -> (e: &OverrideEntry)
        requires
            i < self@.len(),
        ensures
            *e == self@[i as int],
    {
        &self.entries[i]
    }

    /// The entries, sorted by path.
    pub fn list(&self) -> (r: &Vec<OverrideEntry>)
        ensures
            r@ == self@,
    {
        &self.entries
    }

    /// The first index whose path is not below `path`; every earlier
    /// entry's path is strictly below it.
    fn position(&self, path: &str) -> (i: usize)
        ensures
            i <= self@.len(),
            forall|j: int| 0 <= j < i ==> seq_lt(#[trigger] self@[j].path@, path@),
            i < self@.len() ==> !seq_lt(self@[i as int].path@, path@),
    {
        let n = self.entries.len();
        let mut i: usize = 0;
        while i < n
            invariant
                n == self@.len(),
                i <= n,
                forall|j: int| 0 <= j < i ==> seq_lt(#[trigger] self@[j].path@, path@),
            decreases n - i,
        {
            let e: &OverrideEntry = &self.entries[i];
            if !str_lt(e.path.as_str(), path) {
                return i;
            }
            i = i + 1;
        }
        i
    }

    /// Register `toolchain` for `path`, replacing any prior entry for
    /// that exact path. Every other path's entry is untouched.
    pub fn insert(&mut self, path: &str, toolchain: &str, reason: &str)
        requires
            sorted_by_path(old(self)@),
        ensures
            sorted_by_path(final(self)@),
            lookup(final(self)@, path@) == Some((toolchain@, reason@)),
            has_path(final(self)@, path@),
            forall|q: Seq<char>|
                q != path@ ==> #[trigger] lookup(final(self)@, q) == lookup(old(self)@, q),
            old(self)@.len() <= final(self)@.len() <= old(self)@.len() + 1,
    {
        let ghost s0 = self@;
        let ghost p = path@;
        let i = self.position(path);
        let n = self.entries.len();
        let replace: bool = if i < n {
            let e: &OverrideEntry = &self.entries[i];
            str_eq(e.path.as_str(), path)
        } else {
            false
        };
        let entry = OverrideEntry {
            path: String::from_str(path),
            toolchain: String::from_str(toolchain),
            reason: String::from_str(reason),
        };
        let ghost ge = entry;
        if replace {
            self.entries.remove(i);
            self.entries.insert(i, entry);
            proof {
                s0.remove_ensures(i as int);
                s0.remove(i as int).insert_ensures(i as int, ge);
                let s1 = self@;
                assert(s1 =~= s0.update(i as int, ge));
                assert forall|k: int| 0 <= k < s1.len() implies s1[k].path@ == s0[k].path@ by {
                    if k != i {
                        assert(s1[k] == s0[k]);
                    }
                }
                assert forall|a: int, b: int| 0 <= a < b < s1.len() implies seq_lt(
                    #[trigger] s1[a].path@,
                    #[trigger] s1[b].path@,
                ) by {
                    assert(seq_lt(s0[a].path@, s0[b].path@));
                }
                lemma_lookup_at(s1, i as int);
                assert forall|q: Seq<char>| q != p implies #[trigger] lookup(s1, q) == lookup(
                    s0,
                    q,
                ) by {
                    if has_path(s1, q) {
                        let k1 = index_of_path(s1, q);
                        assert(s0[k1].path@ == q);
                        assert(has_path(s0, q));
                        let k2 = index_of_path(s0, q);
                        lemma_sorted_unique(s0, q, k1, k2);
                        assert(s1[k1] == s0[k2]);
                    } else {
                        if has_path(s0, q) {
                            let k2 = index_of_path(s0, q);
                            assert(s1[k2].path@ == q);
                            assert(has_path(s1, q));
                        }
                    }
                }
            }
        } else {
            self.entries.insert(i, entry);
            proof {
                s0.insert_ensures(i as int, ge);
                let s1 = self@;
                let n0 = s0.len() as int;
                // where the scan stopped, the stored path lies strictly above p
                if (i as int) < n0 {
                    lemma_seq_lt_connected(s0[i as int].path@, p);
                }
                assert forall|a: int, b: int| 0 <= a < b < s1.len() implies seq_lt(
                    #[trigger] s1[a].path@,
                    #[trigger] s1[b].path@,
                ) by {
                    if a < i && b < i {
                        assert(s1[a] == s0[a]);
                        assert(s1[b] == s0[b]);
                    } else if a < i && b == i {
                        assert(s1[a] == s0[a]);
                    } else if a < i && b > i {
                        assert(s1[a] == s0[a]);
                        assert(s1[b] == s0[b - 1]);
                        assert(seq_lt(s0[a].path@, s0[b - 1].path@));
                    } else if a == i && b > i {
                        assert(s1[b] == s0[b - 1]);
                        if b - 1 > i {
                            lemma_seq_lt_trans(p, s0[i as int].path@, s0[b - 1].path@);
                        }
                    } else {
                        assert(s1[a] == s0[a - 1]);
                        assert(s1[b] == s0[b - 1]);
                        assert(seq_lt(s0[a - 1].path@, s0[b - 1].path@));
                    }
                }
                lemma_lookup_at(s1, i as int);
                assert forall|q: Seq<char>| q != p implies #[trigger] lookup(s1, q) == lookup(
                    s0,
                    q,
                ) by {
                    if has_path(s1, q) {
                        let k1 = index_of_path(s1, q);
                        assert(k1 != i);
                        let m = if k1 < i { k1 } else { k1 - 1 };
                        assert(s0[m].path@ == q);
                        assert(has_path(s0, q));
                        let k2 = index_of_path(s0, q);
                        lemma_sorted_unique(s0, q, m, k2);
                        assert(s1[k1] == s0[m]);
                    } else {
                        if has_path(s0, q) {
                            let k2 = index_of_path(s0, q);
                            let m = if k2 < i { k2 } else { k2 + 1 };
                            assert(s1[m] == s0[k2]);
                            assert(s1[m].path@ == q);
                            assert(has_path(s1, q));
                        }
                    }
                }
            }
        }
    }

    /// Drop the entry for this exact path. A path that was never
    /// registered is a no-op, not an error: the database is unchanged.
    pub fn remove(&mut self, path: &str) -> (removed: bool)
        requires
            sorted_by_path(old(self)@),
        ensures
            sorted_by_path(final(self)@),
            lookup(final(self)@, path@) is None,
            forall|q: Seq<char>|
                q != path@ ==> #[trigger] lookup(final(self)@, q) == lookup(old(self)@, q),
            removed == has_path(old(self)@, path@),
            !removed ==> final(self)@ == old(self)@,
            removed ==> final(self)@.len() + 1 == old(self)@.len(),
    {
        let ghost s0 = self@;
        let ghost p = path@;
        let i = self.position(path);
        let n = self.entries.len();
        let found: bool = if i < n {
            let e: &OverrideEntry = &self.entries[i];
            str_eq(e.path.as_str(), path)
        } else {
            false
        };
        if found {
            self.entries.remove(i);
            proof {
                s0.remove_ensures(i as int);
                let s1 = self@;
                assert forall|a: int, b: int| 0 <= a < b < s1.len() implies seq_lt(
                    #[trigger] s1[a].path@,
                    #[trigger] s1[b].path@,
                ) by {
                    let a0 = if a < i { a } else { a + 1 };
                    let b0 = if b < i { b } else { b + 1 };
                    assert(s1[a] == s0[a0]);
                    assert(s1[b] == s0[b0]);
                    assert(seq_lt(s0[a0].path@, s0[b0].path@));
                }
                lemma_seq_lt_irrefl(p);
                assert forall|k: int| 0 <= k < s1.len() implies (#[trigger] s1[k]).path@ != p by {
                    let k0 = if k < i { k } else { k + 1 };
                    assert(s1[k] == s0[k0]);
                    if k0 != i {
                        lemma_sorted_unique(s0, p, i as int, i as int);
                        if s0[k0].path@ == p {
                            lemma_sorted_unique(s0, p, k0, i as int);
                        }
                    }
                }
                assert(!has_path(s1, p));
                assert forall|q: Seq<char>| q != p implies #[trigger] lookup(s1, q) == lookup(
                    s0,
                    q,
                ) by {
                    if has_path(s1, q) {
                        let k1 = index_of_path(s1, q);
                        let m = if k1 < i { k1 } else { k1 + 1 };
                        assert(s1[k1] == s0[m]);
                        assert(s0[m].path@ == q);
                        assert(has_path(s0, q));
                        let k2 = index_of_path(s0, q);
                        lemma_sorted_unique(s0, q, m, k2);
                    } else {
                        if has_path(s0, q) {
                            let k2 = index_of_path(s0, q);
                            assert(k2 != i);
                            let m = if k2 < i { k2 } else { k2 - 1 };
                            assert(s1[m] == s0[k2]);
                            assert(s1[m].path@ == q);
                            assert(has_path(s1, q));
                        }
                    }
                }
                assert(has_path(s0, p));
            }
            true
        } else {
            proof {
                lemma_seq_lt_irrefl(p);
                assert forall|k: int| 0 <= k < s0.len() implies (#[trigger] s0[k]).path@ != p by {
                    if k < i {
                        if s0[k].path@ == p {
                            assert(seq_lt(p, p));
                        }
                    } else if k == i {
                    } else {
                        lemma_seq_lt_connected(s0[i as int].path@, p);
                        lemma_seq_lt_trans(p, s0[i as int].path@, s0[k].path@);
                        if s0[k].path@ == p {
                            assert(seq_lt(p, p));
                        }
                    }
                }
                assert(!has_path(s0, p));
            }
            false
        }
    }

    /// Drop every entry.
    pub fn clear(&mut self)
        ensures
            final(self)@ == Seq::<OverrideEntry>::empty(),
            sorted_by_path(final(self)@),
    {
        self.entries.clear();
    }

    /// Look up the entry registered for this exact path.
    pub fn find(&self, path: &str) -> (r: Option<&OverrideEntry>)
        requires
            sorted_by_path(self@),
        ensures
            match r {
                Some(e) => {
                    &&& e.path@ == path@
                    &&& lookup(self@, path@) == Some((e.toolchain@, e.reason@))
                },
                None => lookup(self@, path@) is None,
            },
    {
        let i = self.position(path);
        let n = self.entries.len();
        if i < n {
            let e: &OverrideEntry = &self.entries[i];
            if str_eq(e.path.as_str(), path) {
                proof {
                    lemma_lookup_at(self@, i as int);
                }
                return Some(e);
            }
        }
        proof {
            let s0 = self@;
            let p = path@;
            lemma_seq_lt_irrefl(p);
            assert forall|k: int| 0 <= k < s0.len() implies (#[trigger] s0[k]).path@ != p by {
                if k < i {
                    if s0[k].path@ == p {
                        assert(seq_lt(p, p));
                    }
                } else if k == i {
                } else {
                    lemma_seq_lt_connected(s0[i as int].path@, p);
                    lemma_seq_lt_trans(p, s0[i as int].path@, s0[k].path@);
                    if s0[k].path@ == p {
                        assert(seq_lt(p, p));
                    }
                }
            }
            assert(!has_path(s0, p));
        }
        None
    }
}

} // verus!
