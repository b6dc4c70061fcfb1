use rpgdata_crypt::crypto::{
    decrypt, decrypt_with_params, derive_fk, encrypt, encrypt_with_params, filename_hash, get_fk,
    get_fk_with_params, mz_default_params, CryptoParams,
};

fn mv_params() -> CryptoParams {
    CryptoParams {
        k_value: 152,
        xor_c: 85,
        left_shift_p: 2,
        right_shift_p: 4,
        xor_k: 180,
        add_k: 36,
        lowercase_filename: false,
    }
}

#[test]
fn test_roundtrip_small() {
    let data = b"Hello, World! Test 123";
    let enc = encrypt(data, "Test.json");
    let dec = decrypt(&enc, "Test.json");
    assert_eq!(data.to_vec(), dec);
}

#[test]
fn test_filename_hash_known() {
    // "map100" hash verified against Python/JS
    assert_eq!(filename_hash("map100"), -1081423083);
}

#[test]
fn test_get_fk_known() {
    let fk = get_fk("Map100.json");
    assert_eq!(fk, 226); // 247 XOR (0x15) = 0xE2 = 226
}

#[test]
fn filename_hash_of_empty_is_zero() {
    assert_eq!(filename_hash(""), 0);
    assert_eq!(filename_hash("a"), 97);
    assert_eq!(filename_hash("ab"), 97 * 31 + 98);
}

#[test]
fn filename_hash_uses_utf16_units() {
    // a character above U+FFFF counts as its two surrogates, as charCodeAt reads it
    assert_eq!(filename_hash("\u{10000}"), 0xD800 * 31 + 0xDC00);
    assert_eq!(filename_hash("\u{10000}"), 1770496);
    assert_eq!(filename_hash("\u{1F600}"), 1772899);
    assert_eq!(filename_hash("a\u{1F600}b"), 57849694);
    // characters of the basic plane are one unit each
    assert_eq!(filename_hash("\u{FFFF}"), 0xFFFF);
}

#[test]
fn get_fk_lowercases_and_drops_directory_and_extension() {
    assert_eq!(get_fk("data/MAP100.json"), 226);
    assert_eq!(get_fk("map100"), 226);
    assert_eq!(get_fk("Map100.json"), get_fk("map100.JSON"));
}

#[test]
fn get_fk_of_pathless_name_uses_empty_stem() {
    // no file stem: the hash of the empty name is 0, so fk is _K itself
    assert_eq!(get_fk(""), 247);
    assert_eq!(get_fk(".."), 247);
}

#[test]
fn get_fk_with_params_keeps_case_when_asked() {
    let p = mv_params();
    assert_eq!(get_fk_with_params("Actors.json", &p), 166);
    assert_ne!(get_fk_with_params("Actors.json", &p), get_fk_with_params("actors.json", &p));
}

#[test]
fn derive_fk_formula() {
    let p = mz_default_params();
    // hash("map100") & 255 == 0x15; 247 ^ 0x15 == 226
    assert_eq!(derive_fk("map100", &p), 226);
    assert_eq!(derive_fk("", &p), 247);
}

#[test]
fn mz_defaults_are_the_stock_engine() {
    let p = mz_default_params();
    assert_eq!(
        p,
        CryptoParams {
            k_value: 247,
            xor_c: 82,
            left_shift_p: 2,
            right_shift_p: 4,
            xor_k: 146,
            add_k: 46,
            lowercase_filename: true,
        }
    );
}

#[test]
fn encrypt_single_byte_known_value() {
    // fk 226; key byte of position 0 with feedback 226 is 210; 0x41 ^ 0xD2
    assert_eq!(encrypt(b"A", "Map100.json"), vec![147]);
    assert_eq!(decrypt(&[147], "Map100.json"), b"A".to_vec());
}

#[test]
fn encrypt_known_vector() {
    assert_eq!(encrypt(b"Hello", "Test.json"), vec![193, 207, 199, 248, 226]);
    assert_eq!(decrypt(&[193, 207, 199, 248, 226], "Test.json"), b"Hello".to_vec());
}

#[test]
fn encrypt_with_mv_params_known_vector() {
    let p = mv_params();
    assert_eq!(encrypt_with_params(b"Hello", "Actors.json", &p), vec![29, 39, 47, 68, 14]);
    assert_eq!(decrypt_with_params(&[29, 39, 47, 68, 14], "Actors.json", &p), b"Hello".to_vec());
}

#[test]
fn empty_input_stays_empty() {
    assert!(encrypt(b"", "Map001.json").is_empty());
    assert!(decrypt(b"", "Map001.json").is_empty());
}

#[test]
fn roundtrip_with_mv_params() {
    let p = mv_params();
    let data: Vec<u8> = (0..=255u8).chain(0..=255u8).collect();
    let enc = encrypt_with_params(&data, "System.json", &p);
    assert_eq!(enc.len(), data.len());
    assert_eq!(decrypt_with_params(&enc, "System.json", &p), data);
}

#[test]
fn encrypt_inverts_decrypt() {
    let cipher: Vec<u8> = (0..300u32).map(|i| (i * 7 + 3) as u8).collect();
    let plain = decrypt(&cipher, "Map002.json");
    assert_eq!(encrypt(&plain, "Map002.json"), cipher);
}

#[test]
fn key_depends_on_filename() {
    let data = b"[1,2,3]";
    assert_ne!(encrypt(data, "Map001.json"), encrypt(data, "Map002.json"));
    // renaming breaks decryption
    let enc = encrypt(data, "Map001.json");
    assert_ne!(decrypt(&enc, "Map001_edit.json"), data.to_vec());
}

#[test]
fn large_shift_counts_wrap_like_javascript() {
    let mut p = mz_default_params();
    p.left_shift_p = 34; // JavaScript takes shift counts modulo 32
    p.right_shift_p = 36;
    let q = mz_default_params();
    assert_eq!(encrypt_with_params(b"abc", "x.json", &p), encrypt_with_params(b"abc", "x.json", &q));
}

#[test]
fn extreme_constants_do_not_overflow() {
    let p = CryptoParams {
        k_value: i32::MAX,
        xor_c: i32::MAX,
        left_shift_p: 31,
        right_shift_p: 0,
        xor_k: i32::MIN,
        add_k: i32::MAX,
        lowercase_filename: true,
    };
    let data = b"overflowing sums wrap";
    let enc = encrypt_with_params(data, "a.json", &p);
    assert_eq!(decrypt_with_params(&enc, "a.json", &p), data.to_vec());
}

#[test]
fn filenames_with_equal_hash_bytes_share_a_key() {
    // the key is bound to the low byte of the stem's hash only
    assert_eq!(get_fk("Map001.json"), 162);
    assert_eq!(get_fk("Map089.json"), 162);
    assert_eq!(encrypt(b"[0]", "Map001.json"), encrypt(b"[0]", "Map089.json"));
}
