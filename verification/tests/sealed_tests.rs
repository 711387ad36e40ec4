use oxy::sealed::{decrypt, decrypt_config, encrypt, encrypt_config, encrypt_with, encrypted_payload, sealed_envelope};
use oxy::value::TomlValue;

#[test]
fn encrypted_bytes_decrypt_to_the_text() {
    let salt = [7u8; 32];
    let nonce = [9u8; 12];
    let sealed = encrypt_with(b"name = \"x\"", "hunter2", &salt, &nonce);
    assert_eq!(sealed.len(), 10 + 64);
    assert_eq!(&sealed[..32], &salt[..]);
    assert_eq!(&sealed[32..44], &nonce[..]);
    assert_eq!(&sealed[44..48], &[0u8, 0, 0x28, 0][..]);
    assert_eq!(decrypt(&sealed, "hunter2"), Some("name = \"x\"".to_string()));
}

#[test]
fn wrong_passphrase_or_tampering_fails() {
    let sealed = encrypt_with(b"secret", "right", &[1u8; 32], &[2u8; 12]);
    assert_eq!(decrypt(&sealed, "wrong"), None);
    let mut tampered = sealed.clone();
    let last = tampered.len() - 1;
    tampered[last] ^= 1;
    assert_eq!(decrypt(&tampered, "right"), None);
    assert_eq!(decrypt_config(&sealed, "wrong"), Err("Decryption failed".to_string()));
}

#[test]
fn non_utf8_plaintext_does_not_decrypt_to_text() {
    let sealed = encrypt_with(&[0xff, 0xfe], "pw", &[3u8; 32], &[4u8; 12]);
    assert_eq!(decrypt(&sealed, "pw"), None);
}

#[test]
fn random_encryption_round_trips() {
    let a = encrypt(b"abc", "pw").expect("random bytes");
    let b = encrypt(b"abc", "pw").expect("random bytes");
    assert_ne!(a, b);
    assert_eq!(decrypt(&a, "pw"), Some("abc".to_string()));
    assert_eq!(decrypt(&b, "pw"), Some("abc".to_string()));
}

#[test]
fn encrypted_config_reads_back() {
    let text = "knock = \"CAAA\"\n";
    let table = encrypt_config(text, "pass").expect("random bytes");
    let payload = encrypted_payload(&table).expect("readable").expect("encrypted");
    assert_eq!(decrypt_config(&payload, "pass"), Ok(text.to_string()));
}

#[test]
fn plain_config_has_no_payload() {
    let plain = TomlValue::Table(vec![("knock".to_string(), TomlValue::String("CAAA".to_string()))]);
    assert_eq!(encrypted_payload(&plain), Ok(None));
}

#[test]
fn malformed_encrypted_configs_are_reported() {
    assert_eq!(encrypted_payload(&TomlValue::Integer(3)), Err("Failed to interpret toml as table".to_string()));
    let not_text = TomlValue::Table(vec![("encrypted".to_string(), TomlValue::Integer(3))]);
    assert_eq!(encrypted_payload(&not_text), Err("Encrypted config is not a string?".to_string()));
    let bad = TomlValue::Table(vec![("encrypted".to_string(), TomlValue::String("!!".to_string()))]);
    assert_eq!(encrypted_payload(&bad), Err("Failed to decode encrypted config value.".to_string()));
}

#[test]
fn sealed_envelope_holds_base32_of_the_bytes() {
    let v = sealed_envelope(&[1u8, 2u8]);
    assert_eq!(v.get("encrypted").and_then(|x| x.as_str()), Some("AEBA"));
    assert_eq!(encrypted_payload(&v), Ok(Some(vec![1u8, 2u8])));
}
