//! Choosing the files of a data directory to convert: the `.json` entries,
//! in path order.

use vstd::prelude::*;

use crate::paths::{extension_of, path_extension};
use crate::text::str_to_chars;

verus! {

broadcast use vstd::seq_lib::to_multiset_build, vstd::seq_lib::to_multiset_insert;

/// Lexicographic order on character sequences (code point by code point,
/// a prefix first). For names of entries of one directory this is the
/// order of `PathBuf`, since UTF-8 keeps code point order.
pub open spec fn name_le(a: Seq<char>, b: Seq<char>) -> bool
    decreases a.len(),
{
    if a.len() == 0 {
        true
    } else if b.len() == 0 {
        false
    } else if a[0] != b[0] {
        a[0] < b[0]
    } else {
        name_le(a.drop_first(), b.drop_first())
    }
}

/// Each name is no greater than the next.
pub open spec fn names_sorted(s: Seq<Seq<char>>) -> bool {
    forall|i: int| 0 <= i < s.len() - 1 ==> name_le(#[trigger] s[i], s[i + 1])
}

/// A file name whose extension is `json`.
pub open spec fn is_json_name(n: Seq<char>) -> bool {
    path_extension(n) == Some("json"@)
}

/// The `.json` names among `names`, in their order.
pub open spec fn json_names(names: Seq<Seq<char>>) -> Seq<Seq<char>> {
    names.filter(|n: Seq<char>| is_json_name(n))
}

/// The names as plain sequences.
pub open spec fn names_view(v: Seq<String>) -> Seq<Seq<char>> {
    v.map_values(|s: String| s@)
}

proof fn lemma_name_le_total(a: Seq<char>, b: Seq<char>)
    ensures
        name_le(a, b) || name_le(b, a),
    decreases a.len(),
{
    if a.len() > 0 && b.len() > 0 && a[0] == b[0] {
        lemma_name_le_total(a.drop_first(), b.drop_first());
    }
}

fn name_le_exec(a: &Vec<char>, b: &Vec<char>) -> (r: bool)
    ensures
        r == name_le(a@, b@),
{
    let mut i: usize = 0;
    proof {
        assert(a@.skip(0) =~= a@);
        assert(b@.skip(0) =~= b@);
    }
    while i < a.len() && i < b.len() && a[i] == b[i]
        invariant
            i <= a@.len(),
            i <= b@.len(),
            name_le(a@, b@) == name_le(a@.skip(i as int), b@.skip(i as int)),
        decreases a@.len() - i,
    {
        proof {
            assert(a@.skip(i as int).drop_first() =~= a@.skip(i + 1));
            assert(b@.skip(i as int).drop_first() =~= b@.skip(i + 1));
        }
        i = i + 1;
    }
    if i == a.len() {
        proof {
            assert(a@.skip(i as int).len() == 0);
        }
        true
    } else if i == b.len() {
        false
    } else {
        a[i] < b[i]
    }
}

fn is_json_name_exec(name: &str) -> (r: bool)
    ensures
        r == is_json_name(name@),
{
    proof {
        reveal_strlit("json");
    }
    match extension_of(name) {
        Some(ext) => {
            let e = str_to_chars(ext);
            let j = str_to_chars("json");
            if e.len() != j.len() {
                proof {
                    assert(e@ != j@);
                }
                return false;
            }
            let mut i: usize = 0;
            while i < e.len()
                invariant
                    e@ == ext@,
                    j@ == "json"@,
                    path_extension(name@) == Some(ext@),
                    e@.len() == j@.len(),
                    i <= e@.len(),
                    forall|k: int| 0 <= k < i ==> e@[k] == j@[k],
                decreases e@.len() - i,
            {
                if e[i] != j[i] {
                    proof {
                        assert(e@[i as int] != j@[i as int]);
                        assert(e@ != j@);
                    }
                    return false;
                }
                i = i + 1;
            }
            proof {
                assert(e@ =~= j@);
            }
            true
        },
        None => false,
    }
}

/// Inserts `name` after the names no greater than it, keeping the order.
fn insert_sorted(out: &mut Vec<String>, name: String)
    requires
        names_sorted(names_view(old(out)@)),
    ensures
        names_sorted(names_view(final(out)@)),
        names_view(final(out)@).to_multiset() == names_view(old(out)@).to_multiset().insert(name@),
{
    let key = str_to_chars(name.as_str());
    let mut k: usize = 0;
    while k < out.len() && name_le_exec(&str_to_chars(out[k].as_str()), &key)
        invariant
            k <= out@.len(),
            forall|j: int| 0 <= j < k ==> name_le(#[trigger] out@[j]@, name@),
            key@ == name@,
        decreases out@.len() - k,
    {
        k = k + 1;
    }
    proof {
        if k < out@.len() {
            lemma_name_le_total(out@[k as int]@, name@);
        }
    }
    let ghost before = out@;
    out.insert(k, name);
    proof {
        assert(names_view(out@) =~= names_view(before).insert(k as int, name@));
        assert forall|i: int| 0 <= i < names_view(out@).len() - 1 implies name_le(
            #[trigger] names_view(out@)[i],
            names_view(out@)[i + 1],
        ) by {
            if i + 1 < k {
                assert(names_view(before)[i] == before[i]@);
            } else if i + 1 == k {
            } else if i == k {
            } else {
                assert(names_view(before)[i - 1] == before[i - 1]@);
            }
        }
    }
}

/// Keeps the `.json` names and sorts them.
pub fn select_json_files(names: &Vec<String>) -> (r: Vec<String>)
    ensures
        names_sorted(names_view(r@)),
        names_view(r@).to_multiset() == json_names(names_view(names@)).to_multiset(),
        forall|n: Seq<char>|
            #[trigger] names_view(r@).to_multiset().count(n) == if path_extension(n) == Some("json"@) {
                names_view(names@).to_multiset().count(n)
            } else {
                0
            },
{
    let mut out: Vec<String> = Vec::new();
    let mut i: usize = 0;
    proof {
        assert(names_view(names@).take(0) =~= Seq::<Seq<char>>::empty());
        reveal_with_fuel(Seq::filter, 1);
        assert(names_view(out@) =~= Seq::<Seq<char>>::empty());
    }
    while i < names.len()
        invariant
            i <= names@.len(),
            names_sorted(names_view(out@)),
            names_view(out@).to_multiset() == json_names(names_view(names@).take(i as int)).to_multiset(),
        decreases names@.len() - i,
    {
        proof {
            let t = names_view(names@).take(i + 1);
            assert(t.drop_last() =~= names_view(names@).take(i as int));
            assert(t.last() == names@[i as int]@);
            reveal_with_fuel(Seq::filter, 1);
        }
        if is_json_name_exec(names[i].as_str()) {
            insert_sorted(&mut out, names[i].clone());
        }
        i = i + 1;
    }
    proof {
        assert(names_view(names@).take(names@.len() as int) =~= names_view(names@));
        assert forall|n: Seq<char>|
            #[trigger] names_view(out@).to_multiset().count(n) == if path_extension(n) == Some("json"@) {
                names_view(names@).to_multiset().count(n)
            } else {
                0
            } by {
            lemma_json_names_keep_json_extension(names_view(names@), n);
        }
    }
    out
}

/// What the selection keeps, said without the selection's own predicate:
/// every name whose extension (as `Path::extension` reads it) is `json`,
/// as many times as it occurs, and no other name.
pub proof fn lemma_json_names_keep_json_extension(names: Seq<Seq<char>>, n: Seq<char>)
    ensures
        json_names(names).to_multiset().count(n) == if path_extension(n) == Some("json"@) {
            names.to_multiset().count(n)
        } else {
            0
        },
    decreases names.len(),
{
    broadcast use vstd::multiset::group_multiset_axioms;

    reveal_with_fuel(Seq::filter, 1);
    if names.len() == 0 {
        assert(json_names(names) =~= Seq::<Seq<char>>::empty());
        names.to_multiset_ensures();
        json_names(names).to_multiset_ensures();
        assert(!names.contains(n));
        assert(!json_names(names).contains(n));
    } else {
        let init = names.drop_last();
        lemma_json_names_keep_json_extension(init, n);
        assert(init.push(names.last()) =~= names);
        if is_json_name(names.last()) {
            assert(json_names(names) == json_names(init).push(names.last()));
        } else {
            assert(json_names(names) == json_names(init));
        }
    }
}

} // verus!
