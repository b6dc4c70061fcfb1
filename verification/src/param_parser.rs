//! Reading the crypto parameters out of a game's manager script: three
//! regular expressions locate `_K`, the filename normalisation and the
//! decryption loop; the captured numerals are then checked and converted.

use vstd::prelude::*;

use crate::crypto::CryptoParams;
use crate::text::{contains, occurs_at};

verus! {

/// Why the parameters could not be read from a manager script.
#[derive(Clone, Copy, Debug, PartialEq, Eq, Structural)]
pub enum ParamError {
    /// One of the search patterns did not compile.
    InvalidPattern,
    /// No `window._K = (Math.sqrt(..)|0)` assignment.
    KAssignmentMissing,
    /// The number under `Math.sqrt` is not a perfect square.
    NotPerfectSquare(i32),
    /// No `var n = src.split(..).pop().replace('.json', '')` line.
    FilenamePatternMissing,
    /// No decryption loop of the expected shape.
    LoopPatternMissing,
    /// A captured numeral is not a decimal number of the field's type.
    BadNumber,
}

/// Declares `regex::Error`, the error of `regex::Regex::new`, carried opaquely.
#[verifier::external_type_specification]
#[verifier::external_body]
pub struct ExRegexError(regex::Error);

/// Whether `regex::Regex::new` accepts the pattern.
pub uninterp spec fn regex_valid(pattern: Seq<char>) -> bool;

/// What `regex::Regex::captures` finds in `text`: `None` when there is no
/// match, otherwise one entry per capture group (group 0 is the whole
/// match), `None` for a group that did not participate.
pub uninterp spec fn regex_captures(pattern: Seq<char>, text: Seq<char>) -> Option<Seq<Option<Seq<char>>>>;

/// The capture groups as plain sequences.
pub open spec fn groups_view(c: Option<Vec<Option<String>>>) -> Option<Seq<Option<Seq<char>>>> {
    match c {
        Some(v) => Some(v@.map_values(|g: Option<String>| match g {
            Some(s) => Some(s@),
            None => None,
        })),
        None => None,
    }
}

/// Compiles `pattern` with `regex::Regex::new` and searches `text` with
/// `regex::Regex::captures`, returning the text of each capture group. The
/// contract claims that compilation succeeds exactly when `regex_valid`
/// holds of the pattern, and that the groups are `regex_captures` of the
/// pattern and the text.
#[verifier::external_body]
fn regex_search(pattern: &str, text: &str) -> (r: Result<Option<Vec<Option<String>>>, regex::Error>)
    ensures
        r is Ok <==> regex_valid(pattern@),
        r matches Ok(c) ==> groups_view(c) == regex_captures(pattern@, text@),
{
    let re = regex::Regex::new(pattern)?;
    Ok(re.captures(text).map(|c| c.iter().map(|m| m.map(|m| m.as_str().to_string())).collect()))
}

/// `window._K = (Math.sqrt(N)|0)`.
pub open spec fn k_pattern() -> Seq<char> {
    "window\\._K\\s*=\\s*\\(Math\\.sqrt\\((\\d+)\\)\\|0\\)"@
}

/// `var n = src.split(/../).pop().replace('.json', '')`, optionally followed by
/// `.toLowerCase()` (group 1).
pub open spec fn lower_pattern() -> Seq<char> {
    "var\\s+n\\s*=\\s*src\\.split\\(/.*?/\\)\\.pop\\(\\)\\.replace\\('\\.json',\\s*''\\)(\\.toLowerCase\\(\\))?"@
}

/// The decryption loop; groups 1 to 5 are `xor_c`, the left and right
/// shifts, `xor_k` and `add_k`.
pub open spec fn loop_pattern() -> Seq<char> {
    "var\\s+_c\\s*=\\s*\\(fk\\|(\\d+)\\)&~\\(fk&\\d+\\),\\s*_m\\s*=\\s*\\(i%128\\),\\s*_p\\s*=\\s*\\(\\(ls<<(\\d+)\\)\\|\\(ls>>>(\\d+)\\)\\)&~\\(\\(ls<<\\d+\\)&\\(ls>>>\\d+\\)\\);\\s*var\\s+_k\\s*=\\s*\\(\\(\\(\\(_c\\+_m\\+_p\\)\\|(\\d+)\\)&~\\(\\(\\(_c\\+_m\\+_p\\)&\\d+\\)\\)\\)\\+(\\d+)\\)&255;"@
}

/// The loop pattern lets the whitespace between the loop's tokens be empty
/// (`\s*`, zero or more whitespace characters): after `_c`, around each `=`,
/// after each of the two commas before `_m` and `_p`, and after the `;` that
/// ends the first `var`. Only the whitespace after each `var` keyword must be
/// there (`\s+`), as JavaScript needs it. The position term is `(i%128)`.
pub proof fn lemma_loop_pattern_separators_may_be_empty()
    ensures
        contains(loop_pattern(), "var\\s+_c\\s*=\\s*\\(fk"@),
        contains(loop_pattern(), "\\),\\s*_m\\s*=\\s*\\(i%128\\),\\s*_p\\s*=\\s*\\(\\(ls<<"@),
        contains(loop_pattern(), "\\);\\s*var\\s+_k\\s*=\\s*\\("@),
{
    let lp = loop_pattern();
    let a = "var\\s+_c\\s*=\\s*\\(fk"@;
    let b = "\\),\\s*_m\\s*=\\s*\\(i%128\\),\\s*_p\\s*=\\s*\\(\\(ls<<"@;
    let c = "\\);\\s*var\\s+_k\\s*=\\s*\\("@;
    reveal_strlit("var\\s+_c\\s*=\\s*\\(fk");
    reveal_strlit("\\),\\s*_m\\s*=\\s*\\(i%128\\),\\s*_p\\s*=\\s*\\(\\(ls<<");
    reveal_strlit("\\);\\s*var\\s+_k\\s*=\\s*\\(");
    reveal_strlit(
        "var\\s+_c\\s*=\\s*\\(fk\\|(\\d+)\\)&~\\(fk&\\d+\\),\\s*_m\\s*=\\s*\\(i%128\\),\\s*_p\\s*=\\s*\\(\\(ls<<(\\d+)\\)\\|\\(ls>>>(\\d+)\\)\\)&~\\(\\(ls<<\\d+\\)&\\(ls>>>\\d+\\)\\);\\s*var\\s+_k\\s*=\\s*\\(\\(\\(\\(_c\\+_m\\+_p\\)\\|(\\d+)\\)&~\\(\\(\\(_c\\+_m\\+_p\\)&\\d+\\)\\)\\)\\+(\\d+)\\)&255;",
    );
    assert(lp.subrange(0, a.len() as int) =~= a);
    assert(occurs_at(lp, a, 0));
    assert(lp.subrange(38int, 38int + b.len()) =~= b);
    assert(occurs_at(lp, b, 38int));
    assert(lp.subrange(136int, 136int + c.len()) =~= c);
    assert(occurs_at(lp, c, 136int));
}

// ── Decimal numerals ────────────────────────────────────────────────────

pub open spec fn is_ascii_digit(c: char) -> bool {
    '0' <= c && c <= '9'
}

/// The value of a string of ASCII digits.
pub open spec fn digits_value(s: Seq<char>) -> nat
    decreases s.len(),
{
    if s.len() == 0 {
        0
    } else {
        10 * digits_value(s.drop_last()) + ((s.last() as u32) - ('0' as u32)) as nat
    }
}

/// The number that `s` denotes when it is a non-empty string of ASCII
/// digits whose value is at most `max`.
pub open spec fn decimal_value(s: Seq<char>, max: nat) -> Option<nat> {
    if s.len() > 0 && (forall|i: int| 0 <= i < s.len() ==> is_ascii_digit(#[trigger] s[i])) && digits_value(s) <= max {
        Some(digits_value(s))
    } else {
        None
    }
}

proof fn lemma_digits_value_monotone(s: Seq<char>, i: int)
    requires
        0 <= i <= s.len(),
        forall|k: int| 0 <= k < s.len() ==> is_ascii_digit(#[trigger] s[k]),
    ensures
        digits_value(s.take(i)) <= digits_value(s),
    decreases s.len() - i,
{
    if i < s.len() {
        lemma_digits_value_monotone(s, i + 1);
        assert(s.take(i + 1).drop_last() =~= s.take(i));
    } else {
        assert(s.take(i) =~= s);
    }
}

/// Reads a non-empty string of ASCII digits as a number no greater than
/// `max`; `None` for anything else.
pub fn parse_decimal(s: &str, max: u64) -> (r: Option<u64>)
    ensures
        match r {
            Some(v) => decimal_value(s@, max as nat) == Some(v as nat),
            None => decimal_value(s@, max as nat) is None,
        },
{
    let cs = crate::text::str_to_chars(s);
    if cs.len() == 0 {
        return None;
    }
    let mut value: u64 = 0;
    let mut i: usize = 0;
    while i < cs.len()
        invariant
            cs@ == s@,
            i <= cs@.len(),
            forall|k: int| 0 <= k < i ==> is_ascii_digit(#[trigger] cs@[k]),
            value == digits_value(cs@.take(i as int)),
            value <= max,
        decreases cs@.len() - i,
    {
        let c = cs[i];
        if c < '0' || c > '9' {
            return None;
        }
        proof {
            assert(cs@.take(i + 1).drop_last() =~= cs@.take(i as int));
        }
        let digit = ((c as u32) - ('0' as u32)) as u64;
        let next = match value.checked_mul(10) {
            Some(t) => t.checked_add(digit),
            None => None,
        };
        match next {
            Some(v) if v <= max => {
                value = v;
            },
            _ => {
                proof {
                    assert(digits_value(cs@.take(i + 1)) > max);
                    assert(decimal_value(s@, max as nat) is None) by {
                        if forall|k: int| 0 <= k < cs@.len() ==> is_ascii_digit(#[trigger] cs@[k]) {
                            lemma_digits_value_monotone(cs@, i + 1);
                        }
                    }
                }
                return None;
            },
        }
        i = i + 1;
    }
    proof {
        assert(cs@.take(cs@.len() as int) =~= cs@);
    }
    Some(value)
}

// ── Perfect squares ─────────────────────────────────────────────────────

/// The non-negative integer whose square is `n`, if there is one.
pub open spec fn exact_sqrt(n: int) -> Option<int> {
    if exists|r: int| 0 <= r && #[trigger] (r * r) == n {
        Some(choose|r: int| 0 <= r && #[trigger] (r * r) == n)
    } else {
        None
    }
}

proof fn lemma_square_unique(a: int, b: int)
    requires
        0 <= a,
        0 <= b,
        a * a == b * b,
    ensures
        a == b,
{
    if a < b {
        assert(a * a < b * b) by (nonlinear_arith)
            requires
                0 <= a < b,
        ;
    } else if b < a {
        assert(b * b < a * a) by (nonlinear_arith)
            requires
                0 <= b < a,
        ;
    }
}

fn square_at_most(k: i64, n: i64) -> (r: bool)
    requires
        0 <= k <= 46341,
    ensures
        r == (k * k <= n),
{
    proof {
        assert(k * k <= 46341 * 46341) by (nonlinear_arith)
            requires
                0 <= k <= 46341,
        ;
    }
    k * k <= n
}

/// The integer square root of `n` when `n` is a perfect square (the engine
/// computes `Math.sqrt(n)|0` and requires it exact); `None` otherwise.
pub fn perfect_square_root(n: i32) -> (r: Option<i32>)
    ensures
        match r {
            Some(k) => exact_sqrt(n as int) == Some(k as int),
            None => exact_sqrt(n as int) is None,
        },
{
    if n < 0 {
        proof {
            assert forall|r: int| 0 <= r implies #[trigger] (r * r) != n by {
                assert(r * r >= 0) by (nonlinear_arith)
                    requires
                        0 <= r,
                ;
            }
        }
        return None;
    }
    let mut k: i64 = 0;
    while k < 46340 && square_at_most(k + 1, n as i64)
        invariant
            0 <= k <= 46340,
            k * k <= n,
            n <= i32::MAX,
        decreases 46340 - k,
    {
        k = k + 1;
    }
    proof {
        if k == 46340 {
            assert((k + 1) * (k + 1) > i32::MAX) by (nonlinear_arith)
                requires
                    k == 46340,
            ;
        }
        assert(k * k <= 46340 * 46340) by (nonlinear_arith)
            requires
                0 <= k <= 46340,
        ;
    }
    if k * k == n as i64 {
        proof {
            assert(exists|r: int| 0 <= r && #[trigger] (r * r) == n);
            let c = choose|r: int| 0 <= r && #[trigger] (r * r) == n;
            lemma_square_unique(c, k as int);
        }
        Some(k as i32)
    } else {
        proof {
            assert forall|r: int| 0 <= r implies #[trigger] (r * r) != n by {
                if r <= k {
                    assert(r * r <= k * k) by (nonlinear_arith)
                        requires
                            0 <= r <= k,
                    ;
                    if r * r == n {
                        lemma_square_unique(r, k as int);
                    }
                } else {
                    assert((k + 1) * (k + 1) <= r * r) by (nonlinear_arith)
                        requires
                            k + 1 <= r,
                            0 <= k,
                    ;
                }
            }
        }
        None
    }
}


// ── From captures to parameters ─────────────────────────────────────────

/// Capture group `i`, `None` when it is absent or did not participate.
pub open spec fn group(c: Seq<Option<Seq<char>>>, i: int) -> Option<Seq<char>> {
    if 0 <= i < c.len() {
        c[i]
    } else {
        None
    }
}

/// The number that capture group `i` denotes, if it is a decimal numeral no
/// greater than `max`.
pub open spec fn group_number(c: Seq<Option<Seq<char>>>, i: int, max: nat) -> Option<nat> {
    match group(c, i) {
        Some(g) => decimal_value(g, max),
        None => None,
    }
}

/// The parameters that the three searches determine, checked in the
/// engine's order: `_K` present, its numeral valid, a perfect square; the
/// filename line present; the loop present; its five numerals valid.
/// The filename stem is lowercased exactly when `.toLowerCase()` follows.
pub open spec fn params_from_groups(
    k: Option<Seq<Option<Seq<char>>>>,
    lower: Option<Seq<Option<Seq<char>>>>,
    lp: Option<Seq<Option<Seq<char>>>>,
) -> Result<CryptoParams, ParamError> {
    match k {
        None => Err(ParamError::KAssignmentMissing),
        Some(kc) => match group_number(kc, 1, i32::MAX as nat) {
            None => Err(ParamError::BadNumber),
            Some(ks) => match exact_sqrt(ks as int) {
                None => Err(ParamError::NotPerfectSquare(ks as i32)),
                Some(kv) => match lower {
                    None => Err(ParamError::FilenamePatternMissing),
                    Some(lc) => match lp {
                        None => Err(ParamError::LoopPatternMissing),
                        Some(pc) => {
                            let a = group_number(pc, 1, i32::MAX as nat);
                            let b = group_number(pc, 2, u32::MAX as nat);
                            let c = group_number(pc, 3, u32::MAX as nat);
                            let d = group_number(pc, 4, i32::MAX as nat);
                            let e = group_number(pc, 5, i32::MAX as nat);
                            if a is Some && b is Some && c is Some && d is Some && e is Some {
                                Ok(
                                    CryptoParams {
                                        k_value: kv as i32,
                                        xor_c: a->0 as i32,
                                        left_shift_p: b->0 as u32,
                                        right_shift_p: c->0 as u32,
                                        xor_k: d->0 as i32,
                                        add_k: e->0 as i32,
                                        lowercase_filename: group(lc, 1) is Some,
                                    },
                                )
                            } else {
                                Err(ParamError::BadNumber)
                            }
                        },
                    },
                },
            },
        },
    }
}

/// The parameters read from a manager script's text.
pub open spec fn crypto_params_of(content: Seq<char>) -> Result<CryptoParams, ParamError> {
    if !regex_valid(k_pattern()) || !regex_valid(lower_pattern()) || !regex_valid(loop_pattern()) {
        Err(ParamError::InvalidPattern)
    } else {
        params_from_groups(
            regex_captures(k_pattern(), content),
            regex_captures(lower_pattern(), content),
            regex_captures(loop_pattern(), content),
        )
    }
}

fn group_number_exec(c: &Vec<Option<String>>, i: usize, max: u64) -> (r: Option<u64>)
    ensures
        match r {
            Some(v) => group_number(groups_view(Some(*c))->0, i as int, max as nat) == Some(v as nat),
            None => group_number(groups_view(Some(*c))->0, i as int, max as nat) is None,
        },
{
    if i >= c.len() {
        return None;
    }
    match &c[i] {
        Some(s) => parse_decimal(s.as_str(), max),
        None => None,
    }
}

/// Turns the results of the three searches into parameters, checking them
/// in the engine's order (see `params_from_groups`).
pub fn params_from_captures(
    k: Option<Vec<Option<String>>>,
    lower: Option<Vec<Option<String>>>,
    lp: Option<Vec<Option<String>>>,
) -> (r: Result<CryptoParams, ParamError>)
    ensures
        r == params_from_groups(groups_view(k), groups_view(lower), groups_view(lp)),
{
    let kc = match k {
        Some(v) => v,
        None => return Err(ParamError::KAssignmentMissing),
    };
    let ks = match group_number_exec(&kc, 1, 2147483647) {
        Some(v) => v as i32,
        None => return Err(ParamError::BadNumber),
    };
    let kv = match perfect_square_root(ks) {
        Some(v) => v,
        None => return Err(ParamError::NotPerfectSquare(ks)),
    };
    let lc = match lower {
        Some(v) => v,
        None => return Err(ParamError::FilenamePatternMissing),
    };
    let pc = match lp {
        Some(v) => v,
        None => return Err(ParamError::LoopPatternMissing),
    };
    let a = group_number_exec(&pc, 1, 2147483647);
    let b = group_number_exec(&pc, 2, 4294967295);
    let c = group_number_exec(&pc, 3, 4294967295);
    let d = group_number_exec(&pc, 4, 2147483647);
    let e = group_number_exec(&pc, 5, 2147483647);
    match (a, b, c, d, e) {
        (Some(a), Some(b), Some(c), Some(d), Some(e)) => {
            let lowercase_filename = lc.len() > 1 && lc[1].is_some();
            Ok(
                CryptoParams {
                    k_value: kv,
                    xor_c: a as i32,
                    left_shift_p: b as u32,
                    right_shift_p: c as u32,
                    xor_k: d as i32,
                    add_k: e as i32,
                    lowercase_filename,
                },
            )
        },
        _ => Err(ParamError::BadNumber),
    }
}

/// Reads the crypto parameters from the text of a manager script.
pub fn parse_crypto_params(content: &str) -> (r: Result<CryptoParams, ParamError>)
    ensures
        r == crypto_params_of(content@),
{
    let k = regex_search("window\\._K\\s*=\\s*\\(Math\\.sqrt\\((\\d+)\\)\\|0\\)", content);
    let lower = regex_search("var\\s+n\\s*=\\s*src\\.split\\(/.*?/\\)\\.pop\\(\\)\\.replace\\('\\.json',\\s*''\\)(\\.toLowerCase\\(\\))?", content);
    let lp = regex_search("var\\s+_c\\s*=\\s*\\(fk\\|(\\d+)\\)&~\\(fk&\\d+\\),\\s*_m\\s*=\\s*\\(i%128\\),\\s*_p\\s*=\\s*\\(\\(ls<<(\\d+)\\)\\|\\(ls>>>(\\d+)\\)\\)&~\\(\\(ls<<\\d+\\)&\\(ls>>>\\d+\\)\\);\\s*var\\s+_k\\s*=\\s*\\(\\(\\(\\(_c\\+_m\\+_p\\)\\|(\\d+)\\)&~\\(\\(\\(_c\\+_m\\+_p\\)&\\d+\\)\\)\\)\\+(\\d+)\\)&255;", content);
    match (k, lower, lp) {
        (Ok(k), Ok(lower), Ok(lp)) => params_from_captures(k, lower, lp),
        _ => Err(ParamError::InvalidPattern),
    }
}

} // verus!
