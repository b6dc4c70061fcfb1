use base64::Engine;
use rpgdata_crypt::commands::{decrypt_payload, encrypt_payload, encrypted_file_text, frame_wrapped, key_filename, DataError};
use rpgdata_crypt::crypto::{encrypt, mz_default_params, CryptoParams};

const ACTORS: &str = r#"[{"id":1,"name":"Harold"}]"#;

#[test]
fn encrypt_payload_known_value() {
    let p = mz_default_params();
    assert_eq!(encrypt_payload(ACTORS, "Actors.json", &p), "OXnZnW1FciUhHG15lIt2zolCXToqTpOneUc=");
}

#[test]
fn decrypt_payload_known_value() {
    let p = mz_default_params();
    let text = decrypt_payload("OXnZnW1FciUhHG15lIt2zolCXToqTpOneUc=", "Actors.json", &p, false).unwrap();
    assert_eq!(text, ACTORS);
}

#[test]
fn payload_roundtrip_with_other_params() {
    let p = CryptoParams {
        k_value: 152,
        xor_c: 85,
        left_shift_p: 2,
        right_shift_p: 4,
        xor_k: 180,
        add_k: 36,
        lowercase_filename: false,
    };
    let text = "{\"name\":\"Ünïcödé ✓\",\"data\":[0,1,2]}";
    let data = encrypt_payload(text, "Map002.json", &p);
    assert_eq!(decrypt_payload(&data, "Map002.json", &p, false).unwrap(), text);
}

#[test]
fn payload_strips_one_bom_each_way() {
    let p = mz_default_params();
    let data = encrypt_payload("\u{FEFF}[1]", "Map001.json", &p);
    assert_eq!(data, encrypt_payload("[1]", "Map001.json", &p));
    assert_eq!(decrypt_payload(&data, "Map001.json", &p, false).unwrap(), "[1]");
    // a BOM inside the ciphertext is removed on decryption
    let with_bom = base64_of(&encrypt("\u{FEFF}[2]".as_bytes(), "Map001.json"));
    assert_eq!(decrypt_payload(&with_bom, "Map001.json", &p, false).unwrap(), "[2]");
    // two marks: one goes on each side
    let double = encrypt_payload("\u{FEFF}\u{FEFF}[3]", "Map001.json", &p);
    assert_eq!(decrypt_payload(&double, "Map001.json", &p, false).unwrap(), "[3]");
}

#[test]
fn decrypt_payload_pretty_prints() {
    let p = mz_default_params();
    let data = encrypt_payload("{\"a\":[1,2]}", "System.json", &p);
    let text = decrypt_payload(&data, "System.json", &p, true).unwrap();
    assert_eq!(text, "{\n  \"a\": [\n    1,\n    2\n  ]\n}");
}

#[test]
fn decrypt_payload_errors() {
    let p = mz_default_params();
    assert_eq!(decrypt_payload("not base64!", "Map001.json", &p, false), Err(DataError::InvalidBase64));
    let bad_utf8 = base64_of(&encrypt(&[0xFF, 0xFE], "Map001.json"));
    assert_eq!(decrypt_payload(&bad_utf8, "Map001.json", &p, false), Err(DataError::InvalidUtf8));
    let not_json = encrypt_payload("{oops", "Map001.json", &p);
    assert_eq!(decrypt_payload(&not_json, "Map001.json", &p, true), Err(DataError::InvalidJson));
    assert_eq!(decrypt_payload(&not_json, "Map001.json", &p, false).unwrap(), "{oops");
}

#[test]
fn key_filename_cases() {
    assert_eq!(key_filename("game/data/Map002.json"), "Map002.json");
    assert_eq!(key_filename("Actors.json"), "Actors.json");
    assert_eq!(key_filename(""), "unknown.json");
    assert_eq!(key_filename("/"), "unknown.json");
    assert_eq!(key_filename("data/.."), "unknown.json");
}

fn base64_of(bytes: &[u8]) -> String {
    base64::engine::general_purpose::STANDARD.encode(bytes)
}

#[test]
fn wrapped_file_text_known_value() {
    let p = mz_default_params();
    assert_eq!(
        encrypted_file_text(ACTORS, "Actors.json", &p),
        "{\"uid\":\"\",\"bid\":\"1.9.0\",\"data\":\"OXnZnW1FciUhHG15lIt2zolCXToqTpOneUc=\"}"
    );
    assert_eq!(frame_wrapped(""), "{\"uid\":\"\",\"bid\":\"1.9.0\",\"data\":\"\"}");
}

#[test]
fn wrapped_file_text_reads_back_as_json() {
    let p = mz_default_params();
    let text = encrypted_file_text("[1,2]", "Map003.json", &p);
    let v: serde_json::Value = serde_json::from_str(&text).unwrap();
    assert_eq!(v["uid"], "");
    assert_eq!(v["bid"], "1.9.0");
    let data = v["data"].as_str().unwrap();
    assert_eq!(decrypt_payload(data, "Map003.json", &p, false).unwrap(), "[1,2]");
}
