//! The registry of installed toolchain names: a sorted, duplicate-free
//! set of names, so listing is already in the stable display order.

use vstd::prelude::*;

use crate::strutil::{
    lemma_seq_lt_connected, lemma_seq_lt_irrefl, lemma_seq_lt_trans, seq_lt, str_eq, str_lt,
};

verus! {

/// Names strictly increase along the sequence: sorted and duplicate-free.
pub open spec fn sorted_names(s: Seq<String>) -> bool {
    forall|i: int, j: int| 0 <= i < j < s.len() ==> seq_lt(#[trigger] s[i]@, #[trigger] s[j]@)
}

/// Whether the set holds exactly this name.
pub open spec fn has_name(s: Seq<String>, n: Seq<char>) -> bool {
    exists|i: int| 0 <= i < s.len() && (#[trigger] s[i])@ == n
}

/// A set of names, kept sorted. Its view is the sequence of names.
#[derive(Debug)]
pub struct NameSet {
    names: Vec<String>,
}

impl View for NameSet {
    type V = Seq<String>;

    closed spec fn view(&self) -> Seq<String> {
        self.names@
    }
}

impl NameSet {
    /// The empty set.
    pub fn new() -> (s: NameSet)
        ensures
            s@ == Seq::<String>::empty(),
            sorted_names(s@),
    {
        NameSet { names: Vec::new() }
    }

    pub fn len(&self) -> (n: usize)
        ensures
            n == self@.len(),
    {
        self.names.len()
    }

    pub fn get(&self, i: usize) -> (r: &String)
        requires
            i < self@.len(),
        ensures
            *r == self@[i as int],
    {
        &self.names[i]
    }

    /// The names, sorted.
    pub fn list(&self) -> (r: &Vec<String>)
        ensures
            r@ == self@,
    {
        &self.names
    }

    /// The first index whose name is not below `name`; every earlier
    /// name is strictly below it.
    fn position(&self, name: &str) -> (i: usize)
        ensures
            i <= self@.len(),
            forall|j: int| 0 <= j < i ==> seq_lt(#[trigger] self@[j]@, name@),
            i < self@.len() ==> !seq_lt(self@[i as int]@, name@),
    {
        let n = self.names.len();
        let mut i: usize = 0;
        while i < n
            invariant
                n == self@.len(),
                i <= n,
                forall|j: int| 0 <= j < i ==> seq_lt(#[trigger] self@[j]@, name@),
            decreases n - i,
        {
            let e: &String = &self.names[i];
            if !str_lt(e.as_str(), name) {
                return i;
            }
            i = i + 1;
        }
        i
    }

    /// Whether `name` is in the set.
    pub fn contains(&self, name: &str) -> (r: bool)
        requires
            sorted_names(self@),
        ensures
            r == has_name(self@, name@),
    {
        let i = self.position(name);
        let n = self.names.len();
        if i < n {
            let e: &String = &self.names[i];
            if str_eq(e.as_str(), name) {
                return true;
            }
        }
        proof {
            let s0 = self@;
            let p = name@;
            lemma_seq_lt_irrefl(p);
            assert forall|k: int| 0 <= k < s0.len() implies (#[trigger] s0[k])@ != p by {
                if k < i {
                    if s0[k]@ == p {
                        assert(seq_lt(p, p));
                    }
                } else if k == i {
                } else {
                    lemma_seq_lt_connected(s0[i as int]@, p);
                    lemma_seq_lt_trans(p, s0[i as int]@, s0[k]@);
                    if s0[k]@ == p {
                        assert(seq_lt(p, p));
                    }
                }
            }
        }
        false
    }

    /// Add `name`; adding a name already present changes nothing.
    pub fn insert(&mut self, name: &str)
        requires
            sorted_names(old(self)@),
        ensures
            sorted_names(final(self)@),
            has_name(final(self)@, name@),
            forall|q: Seq<char>|
                q != name@ ==> #[trigger] has_name(final(self)@, q) == has_name(old(self)@, q),
            has_name(old(self)@, name@) ==> final(self)@ == old(self)@,
            old(self)@.len() <= final(self)@.len() <= old(self)@.len() + 1,
    {
        let ghost s0 = self@;
        let ghost p = name@;
        let i = self.position(name);
        let n = self.names.len();
        if i < n {
            let e: &String = &self.names[i];
            if str_eq(e.as_str(), name) {
                return ;
            }
        }
        let entry = String::from_str(name);
        let ghost ge = entry;
        self.names.insert(i, entry);
        proof {
            lemma_seq_lt_irrefl(p);
            // the old set did not hold the name
            assert forall|k: int| 0 <= k < s0.len() implies (#[trigger] s0[k])@ != p by {
                if k < i {
                    if s0[k]@ == p {
                        assert(seq_lt(p, p));
                    }
                } else if k == i {
                } else {
                    lemma_seq_lt_connected(s0[i as int]@, p);
                    lemma_seq_lt_trans(p, s0[i as int]@, s0[k]@);
                    if s0[k]@ == p {
                        assert(seq_lt(p, p));
                    }
                }
            }
            s0.insert_ensures(i as int, ge);
            let s1 = self@;
            if (i as int) < s0.len() {
                lemma_seq_lt_connected(s0[i as int]@, p);
            }
            assert forall|a: int, b: int| 0 <= a < b < s1.len() implies seq_lt(
                #[trigger] s1[a]@,
                #[trigger] s1[b]@,
            ) by {
                if a < i && b < i {
                    assert(s1[a] == s0[a]);
                    assert(s1[b] == s0[b]);
                } else if a < i && b == i {
                    assert(s1[a] == s0[a]);
                } else if a < i && b > i {
                    assert(s1[a] == s0[a]);
                    assert(s1[b] == s0[b - 1]);
                    assert(seq_lt(s0[a]@, s0[b - 1]@));
                } else if a == i && b > i {
                    assert(s1[b] == s0[b - 1]);
                    if b - 1 > i {
                        lemma_seq_lt_trans(p, s0[i as int]@, s0[b - 1]@);
                    }
                } else {
                    assert(s1[a] == s0[a - 1]);
                    assert(s1[b] == s0[b - 1]);
                    assert(seq_lt(s0[a - 1]@, s0[b - 1]@));
                }
            }
            assert(s1[i as int]@ == p);
            assert(has_name(s1, p));
            assert forall|q: Seq<char>| q != p implies #[trigger] has_name(s1, q) == has_name(
                s0,
                q,
            ) by {
                if has_name(s1, q) {
                    let k1 = choose|k: int| 0 <= k < s1.len() && (#[trigger] s1[k])@ == q;
                    assert(k1 != i);
                    let m = if k1 < i {
                        k1
                    } else {
                        k1 - 1
                    };
                    assert(s1[k1] == s0[m]);
                    assert(s0[m]@ == q);
                    assert(has_name(s0, q));
                } else {
                    if has_name(s0, q) {
                        let k2 = choose|k: int| 0 <= k < s0.len() && (#[trigger] s0[k])@ == q;
                        let m = if k2 < i {
                            k2
                        } else {
                            k2 + 1
                        };
                        assert(s1[m] == s0[k2]);
                        assert(s1[m]@ == q);
                        assert(has_name(s1, q));
                    }
                }
            }
        }
    }

    /// Drop `name`; a name that is absent is a no-op.
    pub fn remove(&mut self, name: &str) -> (removed: bool)
        requires
            sorted_names(old(self)@),
        ensures
            sorted_names(final(self)@),
            !has_name(final(self)@, name@),
            forall|q: Seq<char>|
                q != name@ ==> #[trigger] has_name(final(self)@, q) == has_name(old(self)@, q),
            removed == has_name(old(self)@, name@),
            !removed ==> final(self)@ == old(self)@,
            removed ==> final(self)@.len() + 1 == old(self)@.len(),
    {
        let ghost s0 = self@;
        let ghost p = name@;
        let i = self.position(name);
        let n = self.names.len();
        let found: bool = if i < n {
            let e: &String = &self.names[i];
            str_eq(e.as_str(), name)
        } else {
            false
        };
        if found {
            self.names.remove(i);
            proof {
                s0.remove_ensures(i as int);
                let s1 = self@;
                lemma_seq_lt_irrefl(p);
                assert forall|a: int, b: int| 0 <= a < b < s1.len() implies seq_lt(
                    #[trigger] s1[a]@,
                    #[trigger] s1[b]@,
                ) by {
                    let a0 = if a < i {
                        a
                    } else {
                        a + 1
                    };
                    let b0 = if b < i {
                        b
                    } else {
                        b + 1
                    };
                    assert(s1[a] == s0[a0]);
                    assert(s1[b] == s0[b0]);
                    assert(seq_lt(s0[a0]@, s0[b0]@));
                }
                assert forall|k: int| 0 <= k < s1.len() implies (#[trigger] s1[k])@ != p by {
                    let k0 = if k < i {
                        k
                    } else {
                        k + 1
                    };
                    assert(s1[k] == s0[k0]);
                    if k0 != i && s0[k0]@ == p {
                        assert(seq_lt(s0[i as int]@, s0[k0]@) || seq_lt(s0[k0]@, s0[i as int]@));
                        assert(seq_lt(p, p));
                    }
                }
                assert forall|q: Seq<char>| q != p implies #[trigger] has_name(s1, q) == has_name(
                    s0,
                    q,
                ) by {
                    if has_name(s1, q) {
                        let k1 = choose|k: int| 0 <= k < s1.len() && (#[trigger] s1[k])@ == q;
                        let m = if k1 < i {
                            k1
                        } else {
                            k1 + 1
                        };
                        assert(s1[k1] == s0[m]);
                        assert(s0[m]@ == q);
                        assert(has_name(s0, q));
                    } else {
                        if has_name(s0, q) {
                            let k2 = choose|k: int| 0 <= k < s0.len() && (#[trigger] s0[k])@ == q;
                            assert(k2 != i);
                            let m = if k2 < i {
                                k2
                            } else {
                                k2 - 1
                            };
                            assert(s1[m] == s0[k2]);
                            assert(s1[m]@ == q);
                            assert(has_name(s1, q));
                        }
                    }
                }
                assert(has_name(s0, p));
            }
            true
        } else {
            proof {
                lemma_seq_lt_irrefl(p);
                assert forall|k: int| 0 <= k < s0.len() implies (#[trigger] s0[k])@ != p by {
                    if k < i {
                        if s0[k]@ == p {
                            assert(seq_lt(p, p));
                        }
                    } else if k == i {
                    } else {
                        lemma_seq_lt_connected(s0[i as int]@, p);
                        lemma_seq_lt_trans(p, s0[i as int]@, s0[k]@);
                        if s0[k]@ == p {
                            assert(seq_lt(p, p));
                        }
                    }
                }
            }
            false
        }
    }

    /// Drop every name.
    pub fn clear(&mut self)
        ensures
            final(self)@ == Seq::<String>::empty(),
            sorted_names(final(self)@),
    {
        self.names.clear();
    }
}

} // verus!
