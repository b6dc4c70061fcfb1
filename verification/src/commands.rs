//! The data-file transformations behind the commands: the `data` field of a
//! wrapped file is base64 of the ciphertext of the UTF-8 plaintext JSON.

use vstd::prelude::*;
use vstd::utf8::{decode_utf8, encode_utf8, valid_utf8};

use crate::crypto::{decipher, decrypt_with_params, encipher, encrypt_with_params, fk_for_file, lemma_decipher_encipher, CryptoParams};
use crate::paths::{file_name_of, path_file_name};
use crate::text::{str_to_chars, strip_bom, string_from_chars, string_from_utf8, without_bom};

verus! {

broadcast use vstd::utf8::encode_utf8_valid_utf8, vstd::utf8::encode_utf8_decode_utf8;

/// Why the `data` field of a wrapped file could not be turned into text.
#[derive(Clone, Copy, Debug, PartialEq, Eq, Structural)]
pub enum DataError {
    /// The field is not valid standard base64.
    InvalidBase64,
    /// The decrypted bytes are not valid UTF-8.
    InvalidUtf8,
    /// Pretty-printing was asked for and the decrypted text is not JSON.
    InvalidJson,
}

/// Declares `base64::DecodeError`, the error of `Engine::decode`, carried opaquely.
#[verifier::external_type_specification]
#[verifier::external_body]
pub struct ExDecodeError(base64::DecodeError);

/// Declares `serde_json::Error`, the error of `serde_json::from_str`, carried opaquely.
#[verifier::external_type_specification]
#[verifier::external_body]
pub struct ExJsonError(serde_json::Error);

/// What `base64::engine::general_purpose::STANDARD.decode` returns for the
/// bytes of the text `s`: `None` when they are not valid padded base64.
pub uninterp spec fn base64_decoded(s: Seq<char>) -> Option<Seq<u8>>;

/// What `base64::engine::general_purpose::STANDARD.encode` returns.
pub uninterp spec fn base64_encoded(bytes: Seq<u8>) -> Seq<char>;

/// Calls `Engine::decode` of the standard padded engine. The contract claims
/// that it succeeds exactly when `base64_decoded` is defined, with that value.
#[verifier::external_body]
fn base64_decode(s: &str) -> (r: Result<Vec<u8>, base64::DecodeError>)
    ensures
        match r {
            Ok(v) => base64_decoded(s@) == Some(v@),
            Err(_) => base64_decoded(s@) is None,
        },
{
    base64::Engine::decode(&base64::engine::general_purpose::STANDARD, s)
}

/// A symbol of the standard base64 alphabet, or the padding `=`.
pub open spec fn is_base64_symbol(c: char) -> bool {
    ('A' <= c && c <= 'Z') || ('a' <= c && c <= 'z') || ('0' <= c && c <= '9') || c == '+' || c == '/'
        || c == '='
}

/// Calls `Engine::encode` of the standard padded engine. The contract claims
/// that the result is `base64_encoded` of the bytes, that it is made of the
/// standard alphabet and `=`, and that the same engine decodes it back to
/// them. (The buffer-size computation cannot overflow for a slice that fits
/// in memory.)
#[verifier::external_body]
fn base64_encode(bytes: &[u8]) -> (r: String)
    ensures
        r@ == base64_encoded(bytes@),
        forall|i: int| 0 <= i < r@.len() ==> is_base64_symbol(#[trigger] r@[i]),
        base64_decoded(r@) == Some(bytes@),
{
    base64::Engine::encode(&base64::engine::general_purpose::STANDARD, bytes)
}

/// Whether `serde_json::from_str::<serde_json::Value>` accepts the text.
pub uninterp spec fn json_parses(text: Seq<char>) -> bool;

/// What `serde_json::to_string_pretty` makes of the value that
/// `serde_json::from_str::<serde_json::Value>` parses from the text.
pub uninterp spec fn json_pretty_text(text: Seq<char>) -> Seq<char>;

/// Parses `text` as a `serde_json::Value` and prints it with
/// `serde_json::to_string_pretty` (two-space indent). The contract claims
/// that it fails exactly when the text does not parse (printing a `Value`,
/// whose map keys are strings, does not fail) and that the output is
/// `json_pretty_text` of the text.
#[verifier::external_body]
fn json_pretty(text: &str) -> (r: Result<String, serde_json::Error>)
    ensures
        r is Ok <==> json_parses(text@),
        r matches Ok(s) ==> s@ == json_pretty_text(text@),
{
    let value: serde_json::Value = serde_json::from_str(text)?;
    serde_json::to_string_pretty(&value)
}

/// The name of the file that a path names, `unknown.json` when it has none.
pub open spec fn key_filename_of(path: Seq<char>) -> Seq<char> {
    match path_file_name(path) {
        Some(n) => n,
        None => "unknown.json"@,
    }
}

/// Returns the file name of `path` (the name that the key is bound to), or
/// `unknown.json` when the path has none.
pub fn key_filename(path: &str) -> (r: String)
    ensures
        r@ == key_filename_of(path@),
{
    match file_name_of(path) {
        Some(n) => n.to_string(),
        None => "unknown.json".to_string(),
    }
}

/// The text that the `data` field of a wrapped file holds: base64-decoded,
/// decrypted with the key bound to `filename`, read as UTF-8, one leading
/// byte order mark removed, and pretty-printed when asked for.
pub open spec fn decrypted_text(p: CryptoParams, filename: Seq<char>, data: Seq<char>, pretty: bool) -> Result<Seq<char>, DataError> {
    match base64_decoded(data) {
        None => Err(DataError::InvalidBase64),
        Some(cipher) => {
            let plain = decipher(p, fk_for_file(p, filename) as i32, cipher);
            if !valid_utf8(plain) {
                Err(DataError::InvalidUtf8)
            } else {
                let text = without_bom(decode_utf8(plain));
                if !pretty {
                    Ok(text)
                } else if json_parses(text) {
                    Ok(json_pretty_text(text))
                } else {
                    Err(DataError::InvalidJson)
                }
            }
        },
    }
}

/// The `data` field for a plain text: one leading byte order mark removed,
/// UTF-8 encoded, encrypted with the key bound to `filename`, base64.
pub open spec fn encrypted_data(p: CryptoParams, filename: Seq<char>, text: Seq<char>) -> Seq<char> {
    base64_encoded(encipher(p, fk_for_file(p, filename) as i32, encode_utf8(without_bom(text))))
}

/// Turns the `data` field of a wrapped file into its plain text.
pub fn decrypt_payload(data: &str, filename: &str, params: &CryptoParams, pretty: bool) -> (r: Result<String, DataError>)
    ensures
        match r {
            Ok(t) => decrypted_text(*params, filename@, data@, pretty) == Ok::<Seq<char>, DataError>(t@),
            Err(e) => decrypted_text(*params, filename@, data@, pretty) == Err::<Seq<char>, DataError>(e),
        },
{
    let cipher = match base64_decode(data) {
        Ok(c) => c,
        Err(_) => return Err(DataError::InvalidBase64),
    };
    let plain = decrypt_with_params(cipher.as_slice(), filename, params);
    let decoded = match string_from_utf8(plain) {
        Some(s) => s,
        None => return Err(DataError::InvalidUtf8),
    };
    let chars = str_to_chars(decoded.as_str());
    let text = string_from_chars(&strip_bom(&chars));
    if !pretty {
        return Ok(text);
    }
    match json_pretty(text.as_str()) {
        Ok(s) => Ok(s),
        Err(_) => Err(DataError::InvalidJson),
    }
}

/// Turns a plain text into the `data` field of a wrapped file. Decrypting
/// the result with the same parameters and filename gives back the text
/// without its leading byte order marks (one removed on each side).
pub fn encrypt_payload(text: &str, filename: &str, params: &CryptoParams) -> (r: String)
    ensures
        r@ == encrypted_data(*params, filename@, text@),
        decrypted_text(*params, filename@, r@, false) == Ok::<Seq<char>, DataError>(
            without_bom(without_bom(text@)),
        ),
        forall|i: int| 0 <= i < r@.len() ==> is_base64_symbol(#[trigger] r@[i]),
{
    let chars = str_to_chars(text);
    let body = string_from_chars(&strip_bom(&chars));
    let bytes = body.as_str().as_bytes();
    let cipher = encrypt_with_params(bytes, filename, params);
    let r = base64_encode(cipher.as_slice());
    proof {
        let fk = fk_for_file(*params, filename@) as i32;
        lemma_decipher_encipher(*params, fk, encode_utf8(without_bom(text@)));
    }
    r
}


/// A character that a JSON string holds as it is: not `"`, not `\` and not a
/// control character.
pub open spec fn json_plain_char(c: char) -> bool {
    c != '"' && c != '\\' && (c as u32) >= 0x20
}

/// The text of a wrapped data file, `{"uid":"","bid":"1.9.0","data":"…"}`,
/// for a `data` string that needs no escaping: what `serde_json::to_string`
/// writes for the wrapper with these fields in this order.
pub open spec fn wrapped_file_text(data: Seq<char>) -> Seq<char> {
    "{\"uid\":\"\",\"bid\":\"1.9.0\",\"data\":\""@ + data + "\"}"@
}

/// Writes the wrapper around a `data` string that needs no escaping.
pub fn frame_wrapped(data: &str) -> (r: String)
    requires
        forall|i: int| 0 <= i < data@.len() ==> json_plain_char(#[trigger] data@[i]),
    ensures
        r@ == wrapped_file_text(data@),
{
    let mut r = String::new();
    r.append("{\"uid\":\"\",\"bid\":\"1.9.0\",\"data\":\"");
    r.append(data);
    r.append("\"}");
    r
}

/// The text of the wrapped data file for a plain text: its `data` field is
/// `encrypted_data`, which needs no escaping.
pub fn encrypted_file_text(text: &str, filename: &str, params: &CryptoParams) -> (r: String)
    ensures
        r@ == wrapped_file_text(encrypted_data(*params, filename@, text@)),
{
    let data = encrypt_payload(text, filename, params);
    proof {
        assert forall|i: int| 0 <= i < data@.len() implies json_plain_char(#[trigger] data@[i]) by {
            assert(is_base64_symbol(data@[i]));
        }
    }
    frame_wrapped(data.as_str())
}

} // verus!
