//! The engine's key schedule and its reverse XOR stream, computed with the
//! same 32-bit integer behaviour as the JavaScript loader.

use vstd::prelude::*;
use vstd::wrapping::i32_specs;
use vstd::wrapping::u32_specs;

use crate::paths::{file_stem_of, path_file_stem};
use crate::text::{to_lowercase, unicode_lowercase};

verus! {

/// The constants that a game's manager script uses in its decryption loop.
#[derive(Clone, Copy, Debug, PartialEq, Eq, Structural)]
pub struct CryptoParams {
    /// `_K`, the square root taken in `window._K = (Math.sqrt(..)|0)`.
    pub k_value: i32,
    /// The constant XORed with the feedback key (`_c`).
    pub xor_c: i32,
    /// The left shift applied to the feedback byte `ls` (`_p`).
    pub left_shift_p: u32,
    /// The unsigned right shift applied to the feedback byte `ls` (`_p`).
    pub right_shift_p: u32,
    /// The constant XORed with the sum `_c + _m + _p`.
    pub xor_k: i32,
    /// The constant added before the key byte is taken.
    pub add_k: i32,
    /// Whether the filename stem is lowercased before hashing.
    pub lowercase_filename: bool,
}

/// JavaScript's `>>>`: the shift count is taken modulo 32.
pub open spec fn js_ushift_r_spec(v: i32, n: u32) -> i32 {
    u32_specs::wrapping_shr(v as u32, n) as i32
}

/// The key byte for position `idx`, given the feedback byte `ls` (the
/// plaintext byte after position `idx`, or the feedback key at the last
/// position) and the feedback key `fk`. Shift counts are taken modulo 32 and
/// sums wrap to 32 bits, as in JavaScript.
pub open spec fn key_byte(p: CryptoParams, ls: i32, idx: int, fk: i32) -> u8 {
    let c = fk ^ p.xor_c;
    let m = (idx % 128) as i32;
    let pp = i32_specs::wrapping_shl(ls, p.left_shift_p) ^ js_ushift_r_spec(ls, p.right_shift_p);
    let sum = i32_specs::wrapping_add(i32_specs::wrapping_add(c, m), pp);
    let k = sum ^ p.xor_k;
    (i32_specs::wrapping_add(k, p.add_k) & 255) as u8
}

/// Emulates JavaScript `>>>` (unsigned right shift) on a 32-bit value.
fn js_ushift_r(v: i32, n: u32) -> (r: i32)
    ensures
        r == js_ushift_r_spec(v, n),
{
    (v as u32).wrapping_shr(n) as i32
}

/// Emulates the engine's XOR expression `(a|b)&~(a&b)`.
fn js_xor(a: i32, b: i32) -> (r: i32)
    ensures
        r == a ^ b,
{
    let r = (a | b) & !(a & b);
    assert(r == a ^ b) by (bit_vector)
        requires
            r == (a | b) & !(a & b),
    ;
    r
}

/// Computes the key byte for position `idx`, replicating the engine's
/// obfuscated arithmetic.
fn compute_k(ls: i32, idx: usize, fk: i32, params: &CryptoParams) -> (k: u8)
    ensures
        k == key_byte(*params, ls, idx as int, fk),
{
    let c = js_xor(fk, params.xor_c);
    let m = (idx % 128) as i32;
    let p = js_xor(ls.wrapping_shl(params.left_shift_p), js_ushift_r(ls, params.right_shift_p));
    let sum = c.wrapping_add(m).wrapping_add(p);
    let k = js_xor(sum, params.xor_k);
    (k.wrapping_add(params.add_k) & 255) as u8
}


proof fn lemma_key_arith(c: i32, m: i32, pp: i32, xk: i32, ak: i32)
    by (bit_vector)
    requires
        0 <= m < 128,
    ensures
        (i32_specs::wrapping_add(i32_specs::wrapping_add(i32_specs::wrapping_add(c, m), pp) ^ xk, ak) & 255) as u8
            == (((((c as u8) as int + m + (pp as u8) as int) % 256) as u8 ^ (xk as u8)) as int + (ak as u8) as int)
            % 256,
{
}

/// The key byte depends on the position only through the position modulo
/// 128: position `i` and position `i - 128` get the same key byte.
pub proof fn lemma_key_byte_period(p: CryptoParams, ls: i32, i: int, fk: i32)
    requires
        i >= 128,
    ensures
        key_byte(p, ls, i, fk) == key_byte(p, ls, i - 128, fk),
{
    assert(i % 128 == (i - 128) % 128);
}

/// The engine's `_p`: the feedback byte shifted left XORed with it shifted
/// right without sign, each shift count taken modulo 32.
pub open spec fn shifted_feedback(p: CryptoParams, ls: i32) -> i32 {
    (ls << (p.left_shift_p % 32)) ^ (((ls as u32) >> (p.right_shift_p % 32)) as i32)
}

/// For a position `i` below 128 the key byte is, modulo 256,
/// `((fk ^ xor_c) + i + _p) ^ xor_k`, plus `add_k`: the position is added
/// as it is.
pub proof fn lemma_key_byte_low_positions(p: CryptoParams, ls: i32, i: int, fk: i32)
    requires
        0 <= i < 128,
    ensures
        key_byte(p, ls, i, fk) as int == (((((fk ^ p.xor_c) + i + shifted_feedback(p, ls)) % 256) as u8
            ^ (p.xor_k as u8)) as int + p.add_k) % 256,
{
    let c = fk ^ p.xor_c;
    let pp = shifted_feedback(p, ls);
    assert(i % 128 == i);
    lemma_key_arith(c, i as i32, pp, p.xor_k, p.add_k);
    assert((c as u8) as int == c % 256) by (bit_vector);
    assert((pp as u8) as int == pp % 256) by (bit_vector);
    let ak = p.add_k;
    assert((ak as u8) as int == ak % 256) by (bit_vector);
    assert(((c as u8) as int + i + (pp as u8) as int) % 256 == (c + i + pp) % 256);
}

/// The UTF-16 code units of one character: what JavaScript's `charCodeAt`
/// reads (two surrogates for a character above U+FFFF).
pub open spec fn utf16_units_of(c: char) -> Seq<u32> {
    let v = c as u32;
    if v < 0x10000 {
        seq![v]
    } else {
        let w = (v - 0x10000) as u32;
        seq![(0xD800 + (w >> 10u32)) as u32, (0xDC00 + (w & 0x3FFu32)) as u32]
    }
}

/// The UTF-16 code units of a string, as JavaScript stores it.
pub open spec fn utf16_units(s: Seq<char>) -> Seq<u32>
    decreases s.len(),
{
    if s.len() == 0 {
        Seq::<u32>::empty()
    } else {
        utf16_units(s.drop_last()) + utf16_units_of(s.last())
    }
}

/// One step of the engine's hash: `((t << 5) - t + charCode) | 0`.
pub open spec fn hash_step(t: i32, unit: u32) -> i32 {
    i32_specs::wrapping_add(i32_specs::wrapping_sub(i32_specs::wrapping_shl(t, 5), t), unit as i32)
}

/// The engine's hash folded over a sequence of UTF-16 code units from 0.
pub open spec fn hash_units(units: Seq<u32>) -> i32
    decreases units.len(),
{
    if units.len() == 0 {
        0
    } else {
        hash_step(hash_units(units.drop_last()), units.last())
    }
}

/// The engine's string hash `t = ((t << 5) - t + charCodeAt(i)) | 0` over
/// the UTF-16 code units of `s`.
pub open spec fn js_hash(s: Seq<char>) -> i32 {
    hash_units(utf16_units(s))
}

proof fn lemma_hash_step_formula(t: i32, u: u32)
    requires
        u < 0x10000,
    ensures
        hash_step(t, u) == (31 * t + u) as i32,
{
    assert(i32_specs::wrapping_add(i32_specs::wrapping_sub(i32_specs::wrapping_shl(t, 5), t), u as i32)
        == (31 * t + u) as i32) by (bit_vector)
        requires
            u < 0x10000,
    ;
}

/// The hash of the empty name is 0.
pub proof fn lemma_js_hash_empty()
    ensures
        js_hash(Seq::<char>::empty()) == 0,
{
    assert(utf16_units(Seq::<char>::empty()) =~= Seq::<u32>::empty());
}

/// Appending a character of the basic plane (below U+10000) to a name
/// multiplies its hash by 31 and adds the character's code, modulo 2^32:
/// every character counts, however long the name.
pub proof fn lemma_js_hash_push_bmp(s: Seq<char>, c: char)
    requires
        (c as u32) < 0x10000,
    ensures
        js_hash(s.push(c)) == (31 * js_hash(s) + (c as u32)) as i32,
{
    assert(s.push(c).drop_last() =~= s);
    let units = utf16_units(s);
    assert(utf16_units(s.push(c)) == units + seq![c as u32]);
    assert((units + seq![c as u32]).drop_last() =~= units);
    assert((units + seq![c as u32]).last() == c as u32);
    lemma_hash_step_formula(js_hash(s), c as u32);
}

/// Appending a character above U+FFFF adds its two UTF-16 surrogates, high
/// `0xD800 + (c - 0x10000) / 1024` then low `0xDC00 + (c - 0x10000) % 1024`,
/// each as one step `t * 31 + unit` modulo 2^32.
pub proof fn lemma_js_hash_push_astral(s: Seq<char>, c: char)
    requires
        (c as u32) >= 0x10000,
    ensures
        js_hash(s.push(c)) == (31 * ((31 * js_hash(s) + (0xD800 + ((c as u32) - 0x10000) / 1024)) as i32)
            + (0xDC00 + ((c as u32) - 0x10000) % 1024)) as i32,
{
    let v = c as u32;
    let w = (v - 0x10000) as u32;
    let hi = (0xD800 + (w >> 10u32)) as u32;
    let lo = (0xDC00 + (w & 0x3FFu32)) as u32;
    assert(w >> 10u32 == w / 1024) by (bit_vector);
    assert(w & 0x3FFu32 == w % 1024) by (bit_vector);
    assert(v <= 0x10FFFF) by {
        vstd::utf8::char_is_scalar(c);
    }
    assert(w == v - 0x10000);
    assert(hi == 0xD800 + w / 1024);
    assert(lo == 0xDC00 + w % 1024);
    assert(hi < 0x10000);
    assert(lo < 0x10000);
    assert(s.push(c).drop_last() =~= s);
    let units = utf16_units(s);
    assert(utf16_units(s.push(c)) == units + seq![hi, lo]);
    assert((units + seq![hi, lo]).drop_last() =~= units + seq![hi]);
    assert((units + seq![hi]).drop_last() =~= units);
    assert((units + seq![hi, lo]).last() == lo);
    assert((units + seq![hi]).last() == hi);
    assert(hash_units(units + seq![hi]) == hash_step(hash_units(units), hi));
    assert(hash_units(units + seq![hi, lo]) == hash_step(hash_units(units + seq![hi]), lo));
    lemma_hash_step_formula(js_hash(s), hi);
    lemma_hash_step_formula(hash_step(js_hash(s), hi), lo);
}

fn hash_step_exec(t: i32, unit: u32) -> (r: i32)
    ensures
        r == hash_step(t, unit),
{
    t.wrapping_shl(5).wrapping_sub(t).wrapping_add(unit as i32)
}

/// Computes the JS-style string hash of `name`, over its UTF-16 code units
/// as `charCodeAt` gives them.
pub fn filename_hash(name: &str) -> (t: i32)
    ensures
        t == js_hash(name@),
{
    let mut t: i32 = 0;
    let ghost s = name@;
    for ch in it: name.chars()
        invariant
            it.seq() == s,
            t == hash_units(utf16_units(s.take(it.index()))),
    {
        let ghost before = utf16_units(s.take(it.index() as int));
        proof {
            assert(s.take(it.index() + 1).drop_last() =~= s.take(it.index() as int));
            assert(s.take(it.index() + 1).last() == ch);
            assert(utf16_units(s.take(it.index() + 1)) == before + utf16_units_of(ch));
        }
        let v = ch as u32;
        if v < 0x10000 {
            proof {
                assert(utf16_units_of(ch) == seq![v]);
                assert((before + seq![v]).drop_last() =~= before);
                assert((before + seq![v]).last() == v);
            }
            t = hash_step_exec(t, v);
            assert(t == hash_units(before + seq![v]));
        } else {
            let w = v - 0x10000;
            proof {
                assert(w >> 10u32 <= 0x3FFFFF) by (bit_vector);
                assert(w & 0x3FFu32 <= 0x3FF) by (bit_vector);
            }
            let hi = 0xD800 + (w >> 10);
            let lo = 0xDC00 + (w & 0x3FF);
            proof {
                assert(utf16_units_of(ch) == seq![hi, lo]);
                assert((before + seq![hi, lo]).drop_last() =~= before + seq![hi]);
                assert((before + seq![hi]).drop_last() =~= before);
                assert((before + seq![hi, lo]).last() == lo);
                assert((before + seq![hi]).last() == hi);
            }
            t = hash_step_exec(t, hi);
            assert(t == hash_units(before + seq![hi]));
            t = hash_step_exec(t, lo);
            assert(t == hash_units(before + seq![hi, lo]));
        }
    }
    proof {
        assert(s.take(s.len() as int) =~= s);
    }
    t
}

/// The parameters of stock RPG Maker MZ (`Math.sqrt(61009)|0 == 247`).
pub open spec fn mz_defaults() -> CryptoParams {
    CryptoParams {
        k_value: 247,
        xor_c: 82,
        left_shift_p: 2,
        right_shift_p: 4,
        xor_k: 146,
        add_k: 46,
        lowercase_filename: true,
    }
}

/// Returns the parameters of stock RPG Maker MZ.
pub fn mz_default_params() -> (p: CryptoParams)
    ensures
        p == mz_defaults(),
{
    CryptoParams {
        k_value: 247,
        xor_c: 82,
        left_shift_p: 2,
        right_shift_p: 4,
        xor_k: 146,
        add_k: 46,
        lowercase_filename: true,
    }
}

/// The feedback key derived from an (already normalised) name:
/// `(_K ^ (hash & 255)) & 255`.
pub open spec fn fk_for_name(p: CryptoParams, name: Seq<char>) -> u8 {
    ((p.k_value ^ (js_hash(name) & 255)) & 255) as u8
}

/// The name that is hashed for a file: its stem (empty when it has none),
/// lowercased when the game lowercases it.
pub open spec fn key_name(p: CryptoParams, filename: Seq<char>) -> Seq<char> {
    let stem = match path_file_stem(filename) {
        Some(s) => s,
        None => Seq::<char>::empty(),
    };
    if p.lowercase_filename {
        unicode_lowercase(stem)
    } else {
        stem
    }
}

/// The feedback key of a file.
pub open spec fn fk_for_file(p: CryptoParams, filename: Seq<char>) -> u8 {
    fk_for_name(p, key_name(p, filename))
}

/// Derives the feedback key from a name that has already been normalised
/// (stem taken, lowercased where the game does so).
pub fn derive_fk(name: &str, params: &CryptoParams) -> (fk: u8)
    ensures
        fk == fk_for_name(*params, name@),
{
    let hash = filename_hash(name);
    (js_xor(params.k_value, hash & 255) & 255) as u8
}

/// Derives the feedback key for `filename` under the given parameters.
pub fn get_fk_with_params(filename: &str, params: &CryptoParams) -> (fk: u8)
    ensures
        fk == fk_for_file(*params, filename@),
{
    let stem: &str = match file_stem_of(filename) {
        Some(s) => s,
        None => "",
    };
    proof {
        reveal_strlit("");
        let spec_stem = match path_file_stem(filename@) {
            Some(t) => t,
            None => Seq::<char>::empty(),
        };
        assert(stem@ =~= spec_stem);
    }
    if params.lowercase_filename {
        let lower = to_lowercase(stem);
        derive_fk(lower.as_str(), params)
    } else {
        derive_fk(stem, params)
    }
}

/// Derives the initial feedback key from a filename under the stock MZ
/// parameters: the stem (no `.json`), lowercased, hashed, XORed with 247.
pub fn get_fk(filename: &str) -> (fk: u8)
    ensures
        fk == fk_for_file(mz_defaults(), filename@),
{
    let params = mz_default_params();
    get_fk_with_params(filename, &params)
}


// ── The reverse XOR stream ──────────────────────────────────────────────

/// The byte that feeds the key of position `i`: the next plaintext byte,
/// or the feedback key at the last position.
pub open spec fn feedback(fk: i32, plain: Seq<u8>, i: int) -> i32 {
    if i + 1 < plain.len() {
        plain[i + 1] as i32
    } else {
        fk
    }
}

/// The ciphertext of `plain` under feedback key `fk`: each byte is XORed with
/// the key byte of its position, which depends on the plaintext byte after it.
pub open spec fn encipher(p: CryptoParams, fk: i32, plain: Seq<u8>) -> Seq<u8> {
    Seq::new(plain.len(), |i: int| plain[i] ^ key_byte(p, feedback(fk, plain, i), i, fk))
}

/// The plaintext whose ciphertext is `cipher` (there is exactly one; see
/// `decrypt_with_params` and `lemma_encipher_injective`).
pub open spec fn decipher(p: CryptoParams, fk: i32, cipher: Seq<u8>) -> Seq<u8> {
    choose|plain: Seq<u8>| encipher(p, fk, plain) == cipher
}

proof fn lemma_xor_byte(c: u8, k: u8)
    ensures
        (((c as i32) ^ (k as i32)) & 255) as u8 == c ^ k,
        ((c ^ k) ^ k) == c,
        (((c as i32) ^ (k as i32)) & 255) == (c ^ k) as i32,
{
    assert((((c as i32) ^ (k as i32)) & 255) as u8 == c ^ k) by (bit_vector);
    assert(((c ^ k) ^ k) == c) by (bit_vector);
    assert((((c as i32) ^ (k as i32)) & 255) == (c ^ k) as i32) by (bit_vector);
}

/// Decrypts with the given parameters (ciphertext to plaintext). Runs
/// backwards; the key of position `i` depends on plaintext byte `i + 1`.
/// The result is the plaintext whose encryption is `ciphertext`.
pub fn decrypt_with_params(ciphertext: &[u8], filename: &str, params: &CryptoParams) -> (plain: Vec<u8>)
    ensures
        plain@.len() == ciphertext@.len(),
        encipher(*params, fk_for_file(*params, filename@) as i32, plain@) == ciphertext@,
        plain@ == decipher(*params, fk_for_file(*params, filename@) as i32, ciphertext@),
{
    let fk = get_fk_with_params(filename, params) as i32;
    let n = ciphertext.len();
    let mut result: Vec<u8> = vec![0u8; n];
    let mut ls = fk;
    let mut i = n;
    while i > 0
        invariant
            fk == fk_for_file(*params, filename@) as i32,
            n == ciphertext@.len(),
            result@.len() == n,
            i <= n,
            ls == feedback(fk, result@, i - 1),
            forall|j: int|
                i <= j < n ==> result@[j] == ciphertext@[j] ^ key_byte(
                    *params,
                    #[trigger] feedback(fk, result@, j),
                    j,
                    fk,
                ),
        decreases i,
    {
        i = i - 1;
        let k = compute_k(ls, i, fk, params);
        let v = js_xor(ciphertext[i] as i32, k as i32) & 255;
        proof {
            lemma_xor_byte(ciphertext@[i as int], k);
        }
        let ghost before = result@;
        result.set(i, v as u8);
        proof {
            assert forall|j: int| i < j < n implies #[trigger] feedback(fk, result@, j) == feedback(
                fk,
                before,
                j,
            ) by {}
            assert(feedback(fk, result@, i as int) == feedback(fk, before, i as int));
        }
        ls = v;
    }
    proof {
        assert forall|j: int| 0 <= j < n implies #[trigger] encipher(*params, fk, result@)[j]
            == ciphertext@[j] by {
            let k = key_byte(*params, feedback(fk, result@, j), j, fk);
            lemma_xor_byte(ciphertext@[j], k);
        }
        assert(encipher(*params, fk, result@) =~= ciphertext@);
        let other = decipher(*params, fk, ciphertext@);
        lemma_encipher_injective(*params, fk, other, result@);
    }
    result
}

/// Encrypts with the given parameters (plaintext to ciphertext): the same
/// direction and the same plaintext feedback as decryption.
pub fn encrypt_with_params(plaintext: &[u8], filename: &str, params: &CryptoParams) -> (cipher: Vec<u8>)
    ensures
        cipher@ == encipher(*params, fk_for_file(*params, filename@) as i32, plaintext@),
{
    let fk = get_fk_with_params(filename, params) as i32;
    let n = plaintext.len();
    let mut result: Vec<u8> = vec![0u8; n];
    let mut ls = fk;
    let mut i = n;
    while i > 0
        invariant
            fk == fk_for_file(*params, filename@) as i32,
            n == plaintext@.len(),
            result@.len() == n,
            i <= n,
            ls == feedback(fk, plaintext@, i - 1),
            forall|j: int|
                i <= j < n ==> #[trigger] result@[j] == encipher(*params, fk, plaintext@)[j],
        decreases i,
    {
        i = i - 1;
        let k = compute_k(ls, i, fk, params);
        let v = js_xor(plaintext[i] as i32, k as i32) & 255;
        proof {
            lemma_xor_byte(plaintext@[i as int], k);
        }
        result.set(i, v as u8);
        ls = plaintext[i] as i32;
    }
    proof {
        assert(result@ =~= encipher(*params, fk, plaintext@));
    }
    result
}

/// Decrypts RPG Maker MZ data (ciphertext to plaintext) under the stock MZ
/// parameters.
pub fn decrypt(ciphertext: &[u8], filename: &str) -> (plain: Vec<u8>)
    ensures
        plain@.len() == ciphertext@.len(),
        encipher(mz_defaults(), fk_for_file(mz_defaults(), filename@) as i32, plain@)
            == ciphertext@,
        plain@ == decipher(mz_defaults(), fk_for_file(mz_defaults(), filename@) as i32, ciphertext@),
{
    let params = mz_default_params();
    decrypt_with_params(ciphertext, filename, &params)
}

/// Encrypts data into RPG Maker MZ format under the stock MZ parameters.
pub fn encrypt(plaintext: &[u8], filename: &str) -> (cipher: Vec<u8>)
    ensures
        cipher@ == encipher(mz_defaults(), fk_for_file(mz_defaults(), filename@) as i32, plaintext@),
{
    let params = mz_default_params();
    encrypt_with_params(plaintext, filename, &params)
}


// ── Laws of the stream ──────────────────────────────────────────────────

proof fn lemma_suffix_determined(p: CryptoParams, fk: i32, a: Seq<u8>, b: Seq<u8>, i: int)
    requires
        a.len() == b.len(),
        0 <= i <= a.len(),
        encipher(p, fk, a) == encipher(p, fk, b),
    ensures
        forall|j: int| i <= j < a.len() ==> a[j] == b[j],
    decreases a.len() - i,
{
    if i < a.len() {
        lemma_suffix_determined(p, fk, a, b, i + 1);
        assert(feedback(fk, a, i) == feedback(fk, b, i));
        let k = key_byte(p, feedback(fk, a, i), i, fk);
        assert(encipher(p, fk, a)[i] == encipher(p, fk, b)[i]);
        lemma_xor_byte(a[i], k);
        lemma_xor_byte(b[i], k);
        assert(encipher(p, fk, a)[i] == a[i] ^ k);
        assert(encipher(p, fk, b)[i] == b[i] ^ key_byte(p, feedback(fk, b, i), i, fk));
        assert(a[i] ^ k == b[i] ^ k);
        assert(a[i] == b[i]);
    }
}

/// Deciphering a ciphertext gives back the plaintext it was made from.
pub proof fn lemma_decipher_encipher(p: CryptoParams, fk: i32, plain: Seq<u8>)
    ensures
        decipher(p, fk, encipher(p, fk, plain)) == plain,
{
    let c = encipher(p, fk, plain);
    assert(encipher(p, fk, plain) == c);
    let other = decipher(p, fk, c);
    lemma_encipher_injective(p, fk, other, plain);
}

/// Two plaintexts with the same ciphertext (same parameters and feedback
/// key) are equal: decryption is determined by its contract.
pub proof fn lemma_encipher_injective(p: CryptoParams, fk: i32, a: Seq<u8>, b: Seq<u8>)
    requires
        encipher(p, fk, a) == encipher(p, fk, b),
    ensures
        a == b,
{
    assert(encipher(p, fk, a).len() == a.len());
    assert(encipher(p, fk, b).len() == b.len());
    lemma_suffix_determined(p, fk, a, b, 0);
    assert(a =~= b);
}

/// Decrypting what `encrypt_with_params` produced for a file, with the same
/// parameters and the same filename, gives the plaintext back.
pub proof fn lemma_decrypt_inverts_encrypt(
    p: CryptoParams,
    filename: Seq<char>,
    plain: Seq<u8>,
    cipher: Seq<u8>,
    decrypted: Seq<u8>,
)
    requires
        cipher == encipher(p, fk_for_file(p, filename) as i32, plain),
        encipher(p, fk_for_file(p, filename) as i32, decrypted) == cipher,
    ensures
        decrypted == plain,
{
    lemma_encipher_injective(p, fk_for_file(p, filename) as i32, decrypted, plain);
}

/// Encrypting what `decrypt_with_params` produced for a file, with the same
/// parameters and the same filename, gives the ciphertext back.
pub proof fn lemma_encrypt_inverts_decrypt(
    p: CryptoParams,
    filename: Seq<char>,
    cipher: Seq<u8>,
    decrypted: Seq<u8>,
    reencrypted: Seq<u8>,
)
    requires
        encipher(p, fk_for_file(p, filename) as i32, decrypted) == cipher,
        reencrypted == encipher(p, fk_for_file(p, filename) as i32, decrypted),
    ensures
        reencrypted == cipher,
{
}

/// The stream preserves length, and each ciphertext byte depends only on
/// the plaintext byte at its position and the one after it.
pub proof fn lemma_encipher_local(p: CryptoParams, fk: i32, a: Seq<u8>, b: Seq<u8>, i: int)
    requires
        a.len() == b.len(),
        0 <= i < a.len(),
        a[i] == b[i],
        i + 1 < a.len() ==> a[i + 1] == b[i + 1],
    ensures
        encipher(p, fk, a).len() == a.len(),
        encipher(p, fk, a)[i] == encipher(p, fk, b)[i],
{
}

} // verus!
