//! The on-disk form of the Override Database, owned by this crate: one
//! entry per newline-terminated line, its path, toolchain and reason
//! separated by tabs. Encoding is refused for a field that holds a
//! separator, and decoding inverts encoding exactly: what was written
//! is what is read back.

use vstd::prelude::*;

use crate::overrides::OverrideEntry;

verus! {

/// A field can stand in the format iff it holds neither separator.
pub open spec fn field_ok(s: Seq<char>) -> bool {
    forall|i: int| 0 <= i < s.len() ==> s[i] != '\t' && s[i] != '\n'
}

pub open spec fn entry_ok(e: OverrideEntry) -> bool {
    field_ok(e.path@) && field_ok(e.toolchain@) && field_ok(e.reason@)
}

/// The index of the first occurrence of `c`, or -1 when there is none.
pub open spec fn first_of(s: Seq<char>, c: char) -> int
    decreases s.len(),
{
    if s.len() == 0 {
        -1
    } else if s[0] == c {
        0
    } else if first_of(s.skip(1), c) == -1 {
        -1
    } else {
        first_of(s.skip(1), c) + 1
    }
}

/// What `first_of` means: the character stands there, nothing before
/// it matches, and -1 says nothing matches at all.
pub proof fn lemma_first_of_range(s: Seq<char>, c: char)
    ensures
        -1 <= first_of(s, c) < s.len(),
        first_of(s, c) >= 0 ==> s[first_of(s, c)] == c && (forall|j: int|
            0 <= j < first_of(s, c) ==> s[j] != c),
        first_of(s, c) == -1 ==> (forall|j: int| 0 <= j < s.len() ==> s[j] != c),
    decreases s.len(),
{
    if s.len() > 0 && s[0] != c {
        lemma_first_of_range(s.skip(1), c);
        assert forall|j: int| 1 <= j < s.len() implies s[j] == s.skip(1)[j - 1] by {}
    }
}

/// `first_of` over a concatenation: the left side wins; otherwise the
/// right side's answer, shifted.
pub proof fn lemma_first_of_concat(a: Seq<char>, b: Seq<char>, c: char)
    ensures
        first_of(a + b, c) == (if first_of(a, c) != -1 {
            first_of(a, c)
        } else if first_of(b, c) == -1 {
            -1int
        } else {
            a.len() + first_of(b, c)
        }),
    decreases a.len(),
{
    if a.len() == 0 {
        assert(a + b =~= b);
    } else {
        assert((a + b)[0] == a[0]);
        assert((a + b).skip(1) =~= a.skip(1) + b);
        lemma_first_of_concat(a.skip(1), b, c);
        lemma_first_of_range(a.skip(1), c);
        lemma_first_of_range(b, c);
        if a[0] == c {
            assert(first_of(a + b, c) == 0);
            assert(first_of(a, c) == 0);
        } else {
            assert(first_of(a + b, c) == (if first_of(a.skip(1) + b, c) == -1 {
                -1int
            } else {
                first_of(a.skip(1) + b, c) + 1
            }));
            assert(first_of(a, c) == (if first_of(a.skip(1), c) == -1 {
                -1int
            } else {
                first_of(a.skip(1), c) + 1
            }));
            assert(a.skip(1).len() == a.len() - 1);
            if first_of(a.skip(1), c) != -1 {
                assert(first_of(a.skip(1) + b, c) == first_of(a.skip(1), c));
                assert(first_of(a + b, c) == first_of(a, c));
            } else if first_of(b, c) == -1 {
                assert(first_of(a.skip(1) + b, c) == -1);
                assert(first_of(a + b, c) == -1);
            } else {
                assert(first_of(a.skip(1) + b, c) == a.skip(1).len() + first_of(b, c));
                assert(first_of(a + b, c) == a.len() + first_of(b, c));
            }
        }
    }
}

/// One encoded line, newline-terminated.
pub open spec fn spec_encode_entry(e: OverrideEntry) -> Seq<char> {
    e.path@ + seq!['\t'] + e.toolchain@ + seq!['\t'] + e.reason@ + seq!['\n']
}

/// The encoded file: the entries' lines in order.
pub open spec fn spec_encode(s: Seq<OverrideEntry>) -> Seq<char>
    decreases s.len(),
{
    if s.len() == 0 {
        Seq::empty()
    } else {
        spec_encode_entry(s[0]) + spec_encode(s.skip(1))
    }
}

proof fn lemma_encode_snoc(s: Seq<OverrideEntry>, e: OverrideEntry)
    ensures
        spec_encode(s.push(e)) == spec_encode(s) + spec_encode_entry(e),
    decreases s.len(),
{
    if s.len() == 0 {
        assert(s.push(e).skip(1) =~= Seq::<OverrideEntry>::empty());
        assert(s.push(e)[0] == e);
        assert(spec_encode(s.push(e).skip(1)) == Seq::<char>::empty());
        assert(spec_encode(s.push(e)) == spec_encode_entry(e) + Seq::<char>::empty());
        assert(spec_encode_entry(e) + Seq::<char>::empty() =~= spec_encode_entry(e));
        assert(spec_encode(s) + spec_encode_entry(e) =~= spec_encode_entry(e));
    } else {
        assert(s.push(e)[0] == s[0]);
        assert(s.push(e).skip(1) =~= s.skip(1).push(e));
        lemma_encode_snoc(s.skip(1), e);
        assert(spec_encode_entry(s[0]) + (spec_encode(s.skip(1)) + spec_encode_entry(e))
            =~= (spec_encode_entry(s[0]) + spec_encode(s.skip(1))) + spec_encode_entry(e));
    }
}

/// The three fields read from one line, if it carries two separators.
pub open spec fn spec_decode_line(s: Seq<char>) -> Option<(Seq<char>, Seq<char>, Seq<char>)> {
    let i = first_of(s, '\t');
    if i == -1 {
        None
    } else {
        let rest = s.skip(i + 1);
        let j = first_of(rest, '\t');
        if j == -1 {
            None
        } else {
            Some((s.take(i), rest.take(j), rest.skip(j + 1)))
        }
    }
}

/// The decoded file: one field triple per line, or nothing at all for
/// text that is not a sequence of well-formed lines.
pub open spec fn spec_decode(t: Seq<char>) -> Option<Seq<(Seq<char>, Seq<char>, Seq<char>)>>
    decreases t.len(),
    via spec_decode_decreases
{
    if t.len() == 0 {
        Some(Seq::empty())
    } else {
        let k = first_of(t, '\n');
        if k == -1 {
            None
        } else {
            match spec_decode_line(t.take(k)) {
                None => None,
                Some(f) => match spec_decode(t.skip(k + 1)) {
                    None => None,
                    Some(rest) => Some(seq![f] + rest),
                },
            }
        }
    }
}

#[via_fn]
proof fn spec_decode_decreases(t: Seq<char>) {
    lemma_first_of_range(t, '\n');
}

/// The view of a sequence of entries as its field triples.
pub open spec fn entry_fields(s: Seq<OverrideEntry>) -> Seq<(Seq<char>, Seq<char>, Seq<char>)> {
    s.map_values(|e: OverrideEntry| (e.path@, e.toolchain@, e.reason@))
}

/// The round trip: decoding what was encoded yields exactly the
/// entries that were written, field for field and in order.
pub proof fn lemma_codec_round_trip(s: Seq<OverrideEntry>)
    requires
        forall|i: int| 0 <= i < s.len() ==> entry_ok(#[trigger] s[i]),
    ensures
        spec_decode(spec_encode(s)) == Some(entry_fields(s)),
    decreases s.len(),
{
    if s.len() == 0 {
        assert(spec_encode(s) =~= Seq::<char>::empty());
        assert(entry_fields(s) =~= Seq::<(Seq<char>, Seq<char>, Seq<char>)>::empty());
    } else {
        let e = s[0];
        let p = e.path@;
        let tc = e.toolchain@;
        let rs = e.reason@;
        let line = p + seq!['\t'] + tc + seq!['\t'] + rs;
        let t = spec_encode(s);
        let rest_text = spec_encode(s.skip(1));
        assert(t =~= line + seq!['\n'] + rest_text);
        // the first newline closes the first line
        lemma_first_of_range(line, '\n');
        assert(first_of(line, '\n') == -1) by {
            if first_of(line, '\n') >= 0 {
                let k = first_of(line, '\n');
                lemma_first_of_range(line, '\n');
                if k < p.len() {
                    assert(line[k] == p[k]);
                } else if k == p.len() {
                } else if k < p.len() + 1 + tc.len() {
                    assert(line[k] == tc[k - p.len() - 1]);
                } else if k == p.len() + 1 + tc.len() {
                } else {
                    assert(line[k] == rs[k - p.len() - 1 - tc.len() - 1]);
                }
            }
        }
        lemma_first_of_concat(line, seq!['\n'] + rest_text, '\n');
        assert((seq!['\n'] + rest_text)[0] == '\n');
        assert(first_of(seq!['\n'] + rest_text, '\n') == 0);
        assert(t =~= line + (seq!['\n'] + rest_text));
        let k = first_of(t, '\n');
        assert(k == line.len());
        assert(t.take(k) =~= line);
        // the line's own fields
        lemma_first_of_range(p, '\t');
        assert(first_of(p, '\t') == -1) by {
            if first_of(p, '\t') >= 0 {
                lemma_first_of_range(p, '\t');
            }
        }
        lemma_first_of_concat(p, seq!['\t'] + tc + seq!['\t'] + rs, '\t');
        assert((seq!['\t'] + tc + seq!['\t'] + rs)[0] == '\t');
        assert(line =~= p + (seq!['\t'] + tc + seq!['\t'] + rs));
        assert(first_of(line, '\t') == p.len());
        let after = line.skip(p.len() as int + 1);
        assert(after =~= tc + seq!['\t'] + rs);
        lemma_first_of_range(tc, '\t');
        assert(first_of(tc, '\t') == -1) by {
            if first_of(tc, '\t') >= 0 {
                lemma_first_of_range(tc, '\t');
            }
        }
        lemma_first_of_concat(tc, seq!['\t'] + rs, '\t');
        assert((seq!['\t'] + rs)[0] == '\t');
        assert(after =~= tc + (seq!['\t'] + rs));
        assert(first_of(after, '\t') == tc.len());
        assert(line.take(p.len() as int) =~= p);
        assert(after.take(tc.len() as int) =~= tc);
        assert(after.skip(tc.len() as int + 1) =~= rs);
        assert(spec_decode_line(t.take(k)) == Some((p, tc, rs)));
        // the remaining lines by induction
        assert(t.skip(k + 1) =~= rest_text);
        lemma_codec_round_trip(s.skip(1));
        assert(entry_fields(s) =~= seq![(p, tc, rs)] + entry_fields(s.skip(1)));
    }
}

/// Whether a string can stand as one field of the format.
pub fn check_field(s: &str) -> (r: bool)
    ensures
        r == field_ok(s@),
{
    let n = s.unicode_len();
    let mut i: usize = 0;
    while i < n
        invariant
            n == s@.len(),
            i <= n,
            forall|j: int| 0 <= j < i ==> s@[j] != '\t' && s@[j] != '\n',
        decreases n - i,
    {
        let c = s.get_char(i);
        if c == '\t' || c == '\n' {
            return false;
        }
        i = i + 1;
    }
    true
}

/// The index of the first occurrence of `c` in `s`, as `first_of`.
fn find_char(s: &str, c: char) -> (r: Option<usize>)
    ensures
        match r {
            Some(i) => first_of(s@, c) == i,
            None => first_of(s@, c) == -1,
        },
{
    let n = s.unicode_len();
    let mut i: usize = 0;
    while i < n
        invariant
            n == s@.len(),
            i <= n,
            forall|j: int| 0 <= j < i ==> s@[j] != c,
        decreases n - i,
    {
        if s.get_char(i) == c {
            proof {
                lemma_first_of_range(s@, c);
            }
            return Some(i);
        }
        i = i + 1;
    }
    proof {
        lemma_first_of_range(s@, c);
    }
    None
}

/// Encode the entries, in order; refused when a field holds a
/// separator, with the store left for the caller untouched.
pub fn encode_entries(entries: &Vec<OverrideEntry>) -> (r: Option<String>)
    ensures
        match r {
            Some(text) => (forall|i: int|
                0 <= i < entries@.len() ==> entry_ok(#[trigger] entries@[i])) && text@
                == spec_encode(entries@),
            None => !(forall|i: int| 0 <= i < entries@.len() ==> entry_ok(#[trigger] entries@[i])),
        },
{
    let n = entries.len();
    let mut out = String::new();
    let mut i: usize = 0;
    proof {
        assert(entries@.take(0) =~= Seq::<OverrideEntry>::empty());
    }
    while i < n
        invariant
            n == entries@.len(),
            i <= n,
            forall|j: int| 0 <= j < i ==> entry_ok(#[trigger] entries@[j]),
            out@ == spec_encode(entries@.take(i as int)),
        decreases n - i,
    {
        let e = &entries[i];
        if !(check_field(e.path.as_str()) && check_field(e.toolchain.as_str()) && check_field(
            e.reason.as_str(),
        )) {
            return None;
        }
        out.append(e.path.as_str());
        out.append("\t");
        out.append(e.toolchain.as_str());
        out.append("\t");
        out.append(e.reason.as_str());
        out.append("\n");
        proof {
            reveal_strlit("\t");
            reveal_strlit("\n");
            assert("\t"@ =~= seq!['\t']);
            assert("\n"@ =~= seq!['\n']);
            lemma_encode_snoc(entries@.take(i as int), entries@[i as int]);
            assert(entries@.take(i + 1) =~= entries@.take(i as int).push(entries@[i as int]));
            assert(out@ =~= spec_encode(entries@.take(i + 1)));
        }
        i = i + 1;
    }
    proof {
        assert(entries@.take(n as int) =~= entries@);
    }
    Some(out)
}

/// Decode one line into its three fields.
fn decode_line(line: &str) -> (r: Option<(String, String, String)>)
    ensures
        match r {
            Some((p, t, w)) => spec_decode_line(line@) == Some((p@, t@, w@)),
            None => spec_decode_line(line@) is None,
        },
{
    let n = line.unicode_len();
    let i = match find_char(line, '\t') {
        Some(i) => i,
        None => {
            return None;
        },
    };
    proof {
        lemma_first_of_range(line@, '\t');
    }
    let rest = line.substring_char(i + 1, n);
    proof {
        assert(rest@ =~= line@.skip(i + 1));
    }
    let m = rest.unicode_len();
    let j = match find_char(rest, '\t') {
        Some(j) => j,
        None => {
            return None;
        },
    };
    proof {
        lemma_first_of_range(rest@, '\t');
    }
    let p = String::from_str(line.substring_char(0, i));
    let t = String::from_str(rest.substring_char(0, j));
    let w = String::from_str(rest.substring_char(j + 1, m));
    proof {
        assert(p@ =~= line@.take(i as int));
        assert(t@ =~= line@.skip(i + 1).take(j as int));
        assert(w@ =~= line@.skip(i + 1).skip(j + 1));
    }
    Some((p, t, w))
}

/// Decode a whole store file back into entries, refusing any text
/// that is not a sequence of well-formed lines.
pub fn decode_entries(text: &str) -> (r: Option<Vec<OverrideEntry>>)
    ensures
        match r {
            Some(v) => spec_decode(text@) == Some(entry_fields(v@)),
            None => spec_decode(text@) is None,
        },
{
    let mut out: Vec<OverrideEntry> = Vec::new();
    let mut remaining = String::from_str(text);
    proof {
        assert(entry_fields(out@) =~= Seq::<(Seq<char>, Seq<char>, Seq<char>)>::empty());
        match spec_decode(text@) {
            Some(d) => {
                assert(entry_fields(out@) + d =~= d);
            },
            None => {},
        }
    }
    loop
        invariant
            spec_decode(text@) == (match spec_decode(remaining@) {
                Some(d) => Some(entry_fields(out@) + d),
                None => None,
            }),
        ensures
            match spec_decode(text@) {
                Some(d) => remaining@.len() == 0 && d == entry_fields(out@),
                None => false,
            } || (spec_decode(remaining@) is None && spec_decode(text@) is None),
        decreases remaining@.len(),
    {
        let rlen = remaining.as_str().unicode_len();
        if rlen == 0 {
            proof {
                assert(entry_fields(out@) + Seq::<(Seq<char>, Seq<char>, Seq<char>)>::empty()
                    =~= entry_fields(out@));
            }
            break ;
        }
        let k = match find_char(remaining.as_str(), '\n') {
            Some(k) => k,
            None => {
                break ;
            },
        };
        proof {
            lemma_first_of_range(remaining@, '\n');
        }
        let line = remaining.as_str().substring_char(0, k);
        proof {
            assert(line@ =~= remaining@.take(k as int));
        }
        let fields = match decode_line(line) {
            Some(f) => f,
            None => {
                break ;
            },
        };
        let next = String::from_str(remaining.as_str().substring_char(k + 1, rlen));
        proof {
            assert(next@ =~= remaining@.skip(k + 1));
        }
        let (p, t, w) = fields;
        let ghost old_out = out@;
        out.push(OverrideEntry { path: p, toolchain: t, reason: w });
        proof {
            let f = (out@[old_out.len() as int].path@, out@[old_out.len() as int].toolchain@,
                out@[old_out.len() as int].reason@);
            assert(entry_fields(out@) =~= entry_fields(old_out) + seq![f]);
            match spec_decode(next@) {
                Some(d2) => {
                    assert(entry_fields(old_out) + (seq![f] + d2) =~= entry_fields(out@) + d2);
                },
                None => {},
            }
        }
        remaining = next;
    }
    if remaining.as_str().unicode_len() == 0 {
        Some(out)
    } else {
        None
    }
}

} // verus!
