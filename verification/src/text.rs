//! Character-level text operations: conversion between strings and
//! character vectors, UTF-8 decoding, substring search and replacement,
//! and the byte order mark.

use vstd::prelude::*;
use vstd::utf8::{decode_utf8, valid_utf8};

verus! {

/// What `str::to_lowercase` returns (Unicode lowercase mapping).
pub uninterp spec fn unicode_lowercase(s: Seq<char>) -> Seq<char>;

/// Calls `str::to_lowercase`. The contract claims only that the result is
/// `unicode_lowercase` of the argument.
#[verifier::external_body]
pub(crate) fn to_lowercase(s: &str) -> (r: String)
    ensures
        r@ == unicode_lowercase(s@),
{
    s.to_lowercase()
}

/// Collects characters into a `String` (`String: FromIterator<&char>`); the
/// string holds exactly those characters.
#[verifier::external_body]
pub(crate) fn string_from_chars(chars: &Vec<char>) -> (r: String)
    ensures
        r@ == chars@,
{
    chars.iter().collect::<String>()
}

/// Calls `String::from_utf8`, which succeeds exactly on valid UTF-8 and
/// then holds the decoded characters.
#[verifier::external_body]
pub(crate) fn string_from_utf8(bytes: Vec<u8>) -> (r: Option<String>)
    ensures
        match r {
            Some(s) => valid_utf8(bytes@) && s@ == decode_utf8(bytes@),
            None => !valid_utf8(bytes@),
        },
{
    String::from_utf8(bytes).ok()
}

/// Returns the characters of `s`.
pub fn str_to_chars(s: &str) -> (r: Vec<char>)
    ensures
        r@ == s@,
{
    let mut out: Vec<char> = Vec::new();
    let ghost cs = s@;
    for ch in it: s.chars()
        invariant
            it.seq() == cs,
            out@ == cs.take(it.index()),
    {
        proof {
            assert(cs.take(it.index() + 1) =~= cs.take(it.index() as int).push(ch));
        }
        out.push(ch);
    }
    proof {
        assert(cs.take(cs.len() as int) =~= cs);
    }
    out
}

/// The byte order mark U+FEFF.
pub open spec fn bom() -> char {
    '\u{FEFF}'
}

/// `s` without one leading byte order mark.
pub open spec fn without_bom(s: Seq<char>) -> Seq<char> {
    if s.len() > 0 && s[0] == bom() {
        s.drop_first()
    } else {
        s
    }
}

/// Removes one leading byte order mark, if present.
pub fn strip_bom(s: &Vec<char>) -> (r: Vec<char>)
    ensures
        r@ == without_bom(s@),
{
    let start: usize = if s.len() > 0 && s[0] == '\u{FEFF}' {
        1
    } else {
        0
    };
    let mut out: Vec<char> = Vec::new();
    let mut i = start;
    while i < s.len()
        invariant
            start <= i <= s@.len(),
            out@ == s@.subrange(start as int, i as int),
        decreases s@.len() - i,
    {
        out.push(s[i]);
        i = i + 1;
        proof {
            assert(out@ =~= s@.subrange(start as int, i as int));
        }
    }
    proof {
        assert(out@ =~= without_bom(s@));
    }
    out
}

/// `pat` occurs in `s` at position `i`.
pub open spec fn occurs_at(s: Seq<char>, pat: Seq<char>, i: int) -> bool {
    0 <= i && i + pat.len() <= s.len() && s.subrange(i, i + pat.len()) == pat
}

/// `pat` occurs somewhere in `s` (`str::contains`).
pub open spec fn contains(s: Seq<char>, pat: Seq<char>) -> bool {
    exists|i: int| occurs_at(s, pat, i)
}

/// `str::replace`: every non-overlapping occurrence of the non-empty `pat`,
/// found from left to right, replaced by `rep`.
pub open spec fn replace_all(s: Seq<char>, pat: Seq<char>, rep: Seq<char>) -> Seq<char>
    decreases s.len(),
{
    if pat.len() == 0 || s.len() == 0 {
        s
    } else if occurs_at(s, pat, 0) {
        rep + replace_all(s.skip(pat.len() as int), pat, rep)
    } else {
        seq![s[0]] + replace_all(s.drop_first(), pat, rep)
    }
}

/// Whether `pat` occurs in `s` at position `i`.
pub fn occurs_at_exec(s: &Vec<char>, pat: &Vec<char>, i: usize) -> (r: bool)
    ensures
        r == occurs_at(s@, pat@, i as int),
{
    if i > s.len() || pat.len() > s.len() - i {
        return false;
    }
    let mut j: usize = 0;
    while j < pat.len()
        invariant
            i + pat@.len() <= s.len(),
            j <= pat@.len(),
            forall|k: int| 0 <= k < j ==> s@[i + k] == pat@[k],
        decreases pat@.len() - j,
    {
        if s[i + j] != pat[j] {
            proof {
                assert(s@.subrange(i as int, i + pat@.len())[j as int] != pat@[j as int]);
            }
            return false;
        }
        j = j + 1;
    }
    proof {
        assert(s@.subrange(i as int, i + pat@.len()) =~= pat@);
    }
    true
}

/// Whether `pat` occurs anywhere in `s`.
pub fn contains_exec(s: &Vec<char>, pat: &Vec<char>) -> (r: bool)
    ensures
        r == contains(s@, pat@),
{
    let mut i: usize = 0;
    while i < s.len()
        invariant
            i <= s@.len(),
            forall|k: int| 0 <= k < i ==> !occurs_at(s@, pat@, k),
        decreases s@.len() - i,
    {
        if occurs_at_exec(s, pat, i) {
            return true;
        }
        i = i + 1;
    }
    if occurs_at_exec(s, pat, s.len()) {
        return true;
    }
    proof {
        assert forall|k: int| !occurs_at(s@, pat@, k) by {
            if 0 <= k && k < s@.len() {
                assert(!occurs_at(s@, pat@, k));
            }
        }
    }
    false
}

proof fn lemma_replace_step(s: Seq<char>, pat: Seq<char>, rep: Seq<char>, i: int)
    requires
        pat.len() > 0,
        0 <= i < s.len(),
    ensures
        occurs_at(s, pat, i) ==> replace_all(s.skip(i), pat, rep) == rep + replace_all(
            s.skip(i + pat.len()),
            pat,
            rep,
        ),
        !occurs_at(s, pat, i) ==> replace_all(s.skip(i), pat, rep) == seq![s[i]] + replace_all(
            s.skip(i + 1),
            pat,
            rep,
        ),
{
    let t = s.skip(i);
    assert(t.len() > 0);
    if occurs_at(s, pat, i) {
        assert(t.subrange(0, pat.len() as int) =~= s.subrange(i, i + pat.len()));
        assert(occurs_at(t, pat, 0));
        assert(t.skip(pat.len() as int) =~= s.skip(i + pat.len()));
    } else {
        if occurs_at(t, pat, 0) {
            assert(t.subrange(0, pat.len() as int) =~= s.subrange(i, i + pat.len()));
        }
        assert(t.drop_first() =~= s.skip(i + 1));
    }
}

/// Replaces every non-overlapping occurrence of the non-empty `pat` in `s`,
/// from left to right, by `rep`.
pub fn replace_all_exec(s: &Vec<char>, pat: &Vec<char>, rep: &Vec<char>) -> (r: Vec<char>)
    requires
        pat@.len() > 0,
    ensures
        r@ == replace_all(s@, pat@, rep@),
{
    let mut out: Vec<char> = Vec::new();
    let mut i: usize = 0;
    proof {
        assert(s@.skip(0) =~= s@);
    }
    while i < s.len()
        invariant
            pat@.len() > 0,
            i <= s@.len(),
            out@ + replace_all(s@.skip(i as int), pat@, rep@) == replace_all(s@, pat@, rep@),
        decreases s@.len() - i,
    {
        proof {
            lemma_replace_step(s@, pat@, rep@, i as int);
        }
        if occurs_at_exec(s, pat, i) {
            let ghost before = out@;
            let mut j: usize = 0;
            while j < rep.len()
                invariant
                    j <= rep@.len(),
                    out@ == before + rep@.subrange(0, j as int),
                decreases rep@.len() - j,
            {
                out.push(rep[j]);
                j = j + 1;
                proof {
                    assert(out@ =~= before + rep@.subrange(0, j as int));
                }
            }
            proof {
                assert(rep@.subrange(0, rep@.len() as int) =~= rep@);
                assert(out@ + replace_all(s@.skip(i + pat@.len()), pat@, rep@) =~= before + (rep@
                    + replace_all(s@.skip(i + pat@.len()), pat@, rep@)));
            }
            i = i + pat.len();
        } else {
            let ghost before = out@;
            out.push(s[i]);
            proof {
                assert(out@ + replace_all(s@.skip(i + 1), pat@, rep@) =~= before + (seq![s@[i as int]]
                    + replace_all(s@.skip(i + 1), pat@, rep@)));
            }
            i = i + 1;
        }
    }
    proof {
        assert(s@.skip(i as int).len() == 0);
        assert(out@ + replace_all(s@.skip(i as int), pat@, rep@) =~= out@);
    }
    out
}


// ── Facts about replacement ─────────────────────────────────────────────

/// When `pat` occurs nowhere among the first `k` positions of `s`,
/// replacement leaves those `k` characters as they are.
proof fn lemma_replace_keeps_prefix(s: Seq<char>, pat: Seq<char>, rep: Seq<char>, k: int)
    requires
        pat.len() > 0,
        0 <= k <= s.len(),
        forall|j: int| 0 <= j < k ==> !occurs_at(s, pat, j),
    ensures
        replace_all(s, pat, rep) == s.take(k) + replace_all(s.skip(k), pat, rep),
    decreases k,
{
    if k == 0 {
        assert(s.skip(0) =~= s);
        assert(s.take(0) + replace_all(s, pat, rep) =~= replace_all(s, pat, rep));
    } else {
        let t = s.drop_first();
        assert forall|j: int| 0 <= j < k - 1 implies !occurs_at(t, pat, j) by {
            if occurs_at(t, pat, j) {
                assert(s.subrange(j + 1, j + 1 + pat.len()) =~= t.subrange(j, j + pat.len()));
                assert(occurs_at(s, pat, j + 1));
            }
        }
        lemma_replace_keeps_prefix(t, pat, rep, k - 1);
        assert(!occurs_at(s, pat, 0));
        assert(t.skip(k - 1) =~= s.skip(k));
        assert(seq![s[0]] + t.take(k - 1) =~= s.take(k));
    }
}

/// An occurrence of `m` that no occurrence of `pat` overlaps survives the
/// replacement of `pat`.
pub proof fn lemma_replace_keeps_occurrence(s: Seq<char>, pat: Seq<char>, rep: Seq<char>, m: Seq<char>, i: int)
    requires
        pat.len() > 0,
        occurs_at(s, m, i),
        forall|j: int| occurs_at(s, pat, j) ==> j + pat.len() <= i || j >= i + m.len(),
    ensures
        contains(replace_all(s, pat, rep), m),
    decreases s.len(),
{
    let r = replace_all(s, pat, rep);
    if m.len() == 0 {
        assert(r.subrange(0, 0) =~= m);
        assert(occurs_at(r, m, 0));
    } else if i == 0 {
        assert forall|j: int| 0 <= j < m.len() implies !occurs_at(s, pat, j) by {}
        lemma_replace_keeps_prefix(s, pat, rep, m.len() as int);
        assert(r.subrange(0, m.len() as int) =~= s.take(m.len() as int));
        assert(s.take(m.len() as int) =~= s.subrange(0, m.len() as int));
        assert(occurs_at(r, m, 0));
    } else if occurs_at(s, pat, 0) {
        let t = s.skip(pat.len() as int);
        let i2 = i - pat.len();
        assert(t.subrange(i2, i2 + m.len()) =~= s.subrange(i, i + m.len()));
        assert forall|j: int| occurs_at(t, pat, j) implies j + pat.len() <= i2 || j >= i2 + m.len() by {
            assert(s.subrange(j + pat.len(), j + pat.len() + pat.len()) =~= t.subrange(j, j + pat.len()));
            assert(occurs_at(s, pat, j + pat.len()));
        }
        lemma_replace_keeps_occurrence(t, pat, rep, m, i2);
        let q = choose|q: int| occurs_at(replace_all(t, pat, rep), m, q);
        assert(r.subrange(q + rep.len(), q + rep.len() + m.len()) =~= replace_all(t, pat, rep).subrange(q, q + m.len()));
        assert(occurs_at(r, m, q + rep.len()));
    } else {
        let t = s.drop_first();
        assert(t.subrange(i - 1, i - 1 + m.len()) =~= s.subrange(i, i + m.len()));
        assert forall|j: int| occurs_at(t, pat, j) implies j + pat.len() <= i - 1 || j >= i - 1 + m.len() by {
            assert(s.subrange(j + 1, j + 1 + pat.len()) =~= t.subrange(j, j + pat.len()));
            assert(occurs_at(s, pat, j + 1));
        }
        lemma_replace_keeps_occurrence(t, pat, rep, m, i - 1);
        let q = choose|q: int| occurs_at(replace_all(t, pat, rep), m, q);
        assert(r.subrange(q + 1, q + 1 + m.len()) =~= replace_all(t, pat, rep).subrange(q, q + m.len()));
        assert(occurs_at(r, m, q + 1));
    }
}

/// Where `pat` occurs, its replacement `rep` occurs in the result.
pub proof fn lemma_replace_inserts(s: Seq<char>, pat: Seq<char>, rep: Seq<char>)
    requires
        pat.len() > 0,
        contains(s, pat),
    ensures
        contains(replace_all(s, pat, rep), rep),
    decreases s.len(),
{
    let r = replace_all(s, pat, rep);
    if occurs_at(s, pat, 0) {
        assert(r.subrange(0, rep.len() as int) =~= rep);
        assert(occurs_at(r, rep, 0));
    } else {
        let i = choose|i: int| occurs_at(s, pat, i);
        let t = s.drop_first();
        assert(t.subrange(i - 1, i - 1 + pat.len()) =~= s.subrange(i, i + pat.len()));
        assert(occurs_at(t, pat, i - 1));
        lemma_replace_inserts(t, pat, rep);
        let q = choose|q: int| occurs_at(replace_all(t, pat, rep), rep, q);
        assert(r.subrange(q + 1, q + 1 + rep.len()) =~= replace_all(t, pat, rep).subrange(q, q + rep.len()));
        assert(occurs_at(r, rep, q + 1));
    }
}

/// What is in a part of a text is in the text.
pub proof fn lemma_contains_trans(s: Seq<char>, a: Seq<char>, b: Seq<char>)
    requires
        contains(s, a),
        contains(a, b),
    ensures
        contains(s, b),
{
    let i = choose|i: int| occurs_at(s, a, i);
    let j = choose|j: int| occurs_at(a, b, j);
    assert(s.subrange(i + j, i + j + b.len()) =~= a.subrange(j, j + b.len()));
    assert(occurs_at(s, b, i + j));
}

/// Two texts that cannot overlap where they both occur: `m` has at least two
/// characters and none equal to the first of `l`; the first two of `m` never
/// follow each other in `l`; `l` does not end with the first of `m`.
pub open spec fn cannot_overlap(m: Seq<char>, l: Seq<char>) -> bool {
    &&& m.len() >= 2
    &&& l.len() >= 1
    &&& forall|k: int| 0 <= k < m.len() ==> m[k] != l[0]
    &&& forall|k: int| 0 <= k < l.len() - 1 ==> !(#[trigger] l[k] == m[0] && l[k + 1] == m[1])
    &&& l[l.len() - 1] != m[0]
}

/// Occurrences of texts that cannot overlap do not overlap.
pub proof fn lemma_no_overlap(s: Seq<char>, m: Seq<char>, i: int, l: Seq<char>, j: int)
    requires
        cannot_overlap(m, l),
        occurs_at(s, m, i),
        occurs_at(s, l, j),
    ensures
        j + l.len() <= i || j >= i + m.len(),
{
    if !(j + l.len() <= i || j >= i + m.len()) {
        if j > i {
            assert(s[j] == s.subrange(j, j + l.len())[0]);
            assert(s[j] == s.subrange(i, i + m.len())[j - i]);
        } else {
            assert(s[i] == s.subrange(i, i + m.len())[0]);
            assert(s[i] == s.subrange(j, j + l.len())[i - j]);
            if i + 1 < j + l.len() {
                assert(s[i + 1] == s.subrange(i, i + m.len())[1]);
                assert(s[i + 1] == s.subrange(j, j + l.len())[i - j + 1]);
            }
        }
    }
}

} // verus!
