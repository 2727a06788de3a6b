//! Toolchain resolution: pick the toolchain for a working directory.
//! The override registered for the directory wins; failing that, the
//! walk continues upward through the parent directories (so a pin on a
//! project root covers the whole tree); failing all of those, the
//! default toolchain applies; with no default either, resolution fails.

use vstd::prelude::*;

use crate::errors::Error;
use crate::overrides::{lookup, sorted_by_path, OverrideDb, OverrideEntry};

verus! {

/// The index of the last '/' in the path, or -1 when there is none.
pub open spec fn last_slash(p: Seq<char>) -> int
    decreases p.len(),
{
    if p.len() == 0 {
        -1
    } else if p[p.len() - 1] == '/' {
        p.len() - 1
    } else {
        last_slash(p.drop_last())
    }
}

pub proof fn lemma_last_slash_range(p: Seq<char>)
    ensures
        -1 <= last_slash(p) < p.len(),
    decreases p.len(),
{
    if p.len() > 0 && p[p.len() - 1] != '/' {
        lemma_last_slash_range(p.drop_last());
    }
}

/// The parent directory of a path: everything before the last '/'.
/// The root "/" and a path without '/' have no parent; a top-level
/// entry such as "/proj" has the root as its parent.
pub open spec fn spec_parent(p: Seq<char>) -> Option<Seq<char>> {
    let i = last_slash(p);
    if i == -1 {
        None
    } else if i == 0 {
        if p.len() == 1 {
            None
        } else {
            Some(p.take(1))
        }
    } else {
        Some(p.take(i))
    }
}

/// A parent path is strictly shorter than its child.
pub proof fn lemma_parent_shorter(p: Seq<char>)
    ensures
        spec_parent(p) matches Some(q) ==> q.len() < p.len(),
{
    lemma_last_slash_range(p);
}

/// The override found by looking up the directory itself and then each
/// ancestor in turn, nearest first.
pub open spec fn walk_lookup(s: Seq<OverrideEntry>, d: Seq<char>) -> Option<
    (Seq<char>, Seq<char>),
>
    decreases d.len(),
    via walk_lookup_decreases
{
    if lookup(s, d) is Some {
        lookup(s, d)
    } else {
        match spec_parent(d) {
            Some(q) => walk_lookup(s, q),
            None => None,
        }
    }
}

#[via_fn]
proof fn walk_lookup_decreases(s: Seq<OverrideEntry>, d: Seq<char>) {
    lemma_parent_shorter(d);
}

/// The parent directory of `p`, as `spec_parent` gives it.
pub fn parent_dir(p: &str) -> (r: Option<String>)
    ensures
        match r {
            Some(q) => spec_parent(p@) == Some(q@),
            None => spec_parent(p@) is None,
        },
{
    let n = p.unicode_len();
    let mut j: usize = n;
    proof {
        assert(p@.take(n as int) =~= p@);
    }
    while j > 0
        invariant
            n == p@.len(),
            j <= n,
            last_slash(p@) == last_slash(p@.take(j as int)),
        decreases j,
    {
        let c = p.get_char(j - 1);
        if c == '/' {
            proof {
                assert(p@.take(j as int)[j - 1] == p@[j - 1]);
            }
            if j - 1 == 0 {
                if n == 1 {
                    return None;
                }
                return Some(String::from_str(p.substring_char(0, 1)));
            }
            return Some(String::from_str(p.substring_char(0, j - 1)));
        }
        proof {
            assert(p@.take(j as int)[j - 1] == p@[j - 1]);
            assert(p@.take(j as int).drop_last() =~= p@.take(j - 1));
        }
        j = j - 1;
    }
    proof {
        assert(p@.take(0) =~= Seq::<char>::empty());
    }
    None
}

/// Where the chosen toolchain came from.
#[derive(Debug, Clone, Copy, PartialEq, Eq, Structural)]
pub enum ResolvedFrom {
    /// An override pinned the toolchain, on the directory or an ancestor.
    OverridePin,
    /// No override applied; the default toolchain pointer was used.
    DefaultPointer,
}

/// The outcome of resolution: the toolchain to use, where the choice
/// came from, and — for an override — the recorded reason.
#[derive(Debug, Clone)]
pub struct Resolution {
    pub toolchain: String,
    pub from: ResolvedFrom,
    pub reason: Option<String>,
}

/// Resolve the toolchain for a directory, reading the database and the
/// default pointer and changing neither.
pub fn resolve(db: &OverrideDb, default_toolchain: &Option<String>, dir: &str) -> (r: Result<
    Resolution,
    Error,
>)
    requires
        sorted_by_path(db@),
    ensures
        match r {
            Ok(res) => match walk_lookup(db@, dir@) {
                Some((t, why)) => {
                    &&& res.from == ResolvedFrom::OverridePin
                    &&& res.toolchain@ == t
                    &&& res.reason matches Some(rr) && rr@ == why
                },
                None => {
                    &&& default_toolchain matches Some(d) && res.toolchain@ == d@
                    &&& res.from == ResolvedFrom::DefaultPointer
                    &&& res.reason is None
                },
            },
            Err(e) => {
                &&& walk_lookup(db@, dir@) is None
                &&& default_toolchain is None
                &&& e is NoDefaultToolchain
            },
        },
{
    let mut cur = String::from_str(dir);
    loop
        invariant
            sorted_by_path(db@),
            walk_lookup(db@, dir@) == walk_lookup(db@, cur@),
        ensures
            walk_lookup(db@, dir@) is None,
        decreases cur@.len(),
    {
        match db.find(cur.as_str()) {
            Some(e) => {
                return Ok(
                    Resolution {
                        toolchain: e.toolchain.clone(),
                        from: ResolvedFrom::OverridePin,
                        reason: Some(e.reason.clone()),
                    },
                );
            },
            None => {},
        }
        match parent_dir(cur.as_str()) {
            Some(par) => {
                proof {
                    lemma_parent_shorter(cur@);
                }
                cur = par;
            },
            None => {
                break;
            },
        }
    }
    match default_toolchain {
        Some(d) => Ok(
            Resolution {
                toolchain: d.clone(),
                from: ResolvedFrom::DefaultPointer,
                reason: None,
            },
        ),
        None => Err(Error::NoDefaultToolchain),
    }
}

} // verus!
