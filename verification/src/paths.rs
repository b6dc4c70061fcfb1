//! Path handling on paths given as strings: the few `std::path` queries
//! that the tool relies on, and the joins it performs.

use vstd::prelude::*;

use crate::text::{str_to_chars, string_from_chars};

verus! {

/// What `std::path::Path::file_stem` returns for a path given as a string.
pub uninterp spec fn path_file_stem(path: Seq<char>) -> Option<Seq<char>>;

/// Calls `std::path::Path::file_stem` on `path`. The stem of a `str` path
/// is a slice of it between ASCII separators, so the conversion back to
/// `&str` cannot fail. The contract claims only that the result is
/// `path_file_stem` of the argument.
#[verifier::external_body]
pub(crate) fn file_stem_of(path: &str) -> (r: Option<&str>)
    ensures
        match r {
            Some(s) => path_file_stem(path@) == Some(s@),
            None => path_file_stem(path@) is None,
        },
{
    std::path::Path::new(path).file_stem()?.to_str()
}


/// What `std::path::Path::file_name` returns for a path given as a string.
pub uninterp spec fn path_file_name(path: Seq<char>) -> Option<Seq<char>>;

/// Calls `std::path::Path::file_name` on `path`; the name is a slice of the
/// `str` between separators, so the conversion back to `&str` cannot fail.
/// The contract claims only that the result is `path_file_name` of the
/// argument.
#[verifier::external_body]
pub(crate) fn file_name_of(path: &str) -> (r: Option<&str>)
    ensures
        match r {
            Some(s) => path_file_name(path@) == Some(s@),
            None => path_file_name(path@) is None,
        },
{
    std::path::Path::new(path).file_name()?.to_str()
}


/// What `std::path::Path::parent` returns for a path given as a string.
pub uninterp spec fn path_parent(path: Seq<char>) -> Option<Seq<char>>;

/// Calls `std::path::Path::parent` on `path`. The parent is the path
/// without its final component, a slice of the given `str` (so the
/// conversion back to `&str` cannot fail); the contract claims that the
/// result is `path_parent` of the argument and that it is shorter.
#[verifier::external_body]
pub(crate) fn parent_of(path: &str) -> (r: Option<&str>)
    ensures
        match r {
            Some(s) => path_parent(path@) == Some(s@) && s@.len() < path@.len(),
            None => path_parent(path@) is None,
        },
{
    std::path::Path::new(path).parent()?.to_str()
}

/// What `std::path::Path::extension` returns for a path given as a string.
pub uninterp spec fn path_extension(path: Seq<char>) -> Option<Seq<char>>;

/// Calls `std::path::Path::extension` on `path`. The contract claims only
/// that the result is `path_extension` of the argument.
#[verifier::external_body]
pub(crate) fn extension_of(path: &str) -> (r: Option<&str>)
    ensures
        match r {
            Some(s) => path_extension(path@) == Some(s@),
            None => path_extension(path@) is None,
        },
{
    std::path::Path::new(path).extension()?.to_str()
}

/// `base` joined with the relative path `rel` as `PathBuf::push` does, where
/// `sep` is the platform's main separator (`std::path::MAIN_SEPARATOR`):
/// `sep` goes between them unless `base` is empty or already ends with a
/// separator (`/`, or `sep`). On Windows `push` also adds no separator after
/// a bare drive prefix such as `C:`; a canonical game root is never one.
pub open spec fn joined(base: Seq<char>, rel: Seq<char>, sep: char) -> Seq<char> {
    if base.len() == 0 || base.last() == '/' || base.last() == sep {
        base + rel
    } else {
        base + seq![sep] + rel
    }
}

/// Joins the relative path `rel` onto `base` with the separator `sep`.
pub fn join_path(base: &str, rel: &str, sep: char) -> (r: String)
    requires
        rel@.len() == 0 || rel@[0] != '/',
    ensures
        r@ == joined(base@, rel@, sep),
{
    let b = str_to_chars(base);
    let tail = str_to_chars(rel);
    let mut out = b.clone();
    if b.len() > 0 && b[b.len() - 1] != '/' && b[b.len() - 1] != sep {
        out.push(sep);
    }
    let ghost before = out@;
    let mut i: usize = 0;
    while i < tail.len()
        invariant
            i <= tail@.len(),
            out@ == before + tail@.subrange(0, i as int),
        decreases tail@.len() - i,
    {
        out.push(tail[i]);
        i = i + 1;
        proof {
            assert(out@ =~= before + tail@.subrange(0, i as int));
        }
    }
    proof {
        assert(tail@.subrange(0, tail@.len() as int) =~= tail@);
        assert(out@ =~= joined(base@, rel@, sep));
    }
    string_from_chars(&out)
}

/// The ancestors of `path`, as `Path::ancestors` yields them: the path
/// itself, then each parent in turn.
pub open spec fn ancestors(path: Seq<char>) -> Seq<Seq<char>>
    decreases path.len(),
{
    match path_parent(path) {
        Some(q) => if q.len() < path.len() {
            seq![path] + ancestors(q)
        } else {
            seq![path]
        },
        None => seq![path],
    }
}

/// Lists the ancestors of `path`, nearest first, starting with `path`.
pub fn path_ancestors(path: &str) -> (r: Vec<String>)
    ensures
        r@.map_values(|s: String| s@) == ancestors(path@),
{
    let mut out: Vec<String> = Vec::new();
    let mut cur: &str = path;
    loop
        invariant
            out@.map_values(|s: String| s@) + ancestors(cur@) == ancestors(path@),
        decreases cur@.len(),
    {
        let ghost prev = out@;
        out.push(cur.to_string());
        proof {
            assert(out@.map_values(|s: String| s@) =~= prev.map_values(|s: String| s@).push(cur@));
        }
        match parent_of(cur) {
            Some(q) => {
                proof {
                    assert(ancestors(cur@) == seq![cur@] + ancestors(q@));
                    assert(out@.map_values(|s: String| s@) + ancestors(q@) =~= prev.map_values(
                        |s: String| s@,
                    ) + ancestors(cur@));
                }
                cur = q;
            },
            None => {
                proof {
                    assert(ancestors(cur@) == seq![cur@]);
                    assert(out@.map_values(|s: String| s@) =~= prev.map_values(|s: String| s@)
                        + ancestors(cur@));
                }
                return out;
            },
        }
    }
}

} // verus!
