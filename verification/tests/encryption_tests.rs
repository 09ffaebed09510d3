use quantum_email::encryption::{decrypt_message, encrypt_message, generate_keypair,
EncryptedMessage};
use quantum_email::errors::CryptoError;

#[test]
fn round_trip_hello_world() {
    let kp = generate_keypair().unwrap();
    let encrypted = encrypt_message("hello world", &kp.public_key).unwrap();
    let decrypted = decrypt_message(&encrypted, &kp.secret_key).unwrap();
    assert_eq!(decrypted, "hello world");
}

#[test]
fn round_trip_empty_string() {
    let kp = generate_keypair().unwrap();
    let encrypted = encrypt_message("", &kp.public_key).unwrap();
    assert_eq!(encrypted.ciphertext, "");
    let decrypted = decrypt_message(&encrypted, &kp.secret_key).unwrap();
    assert_eq!(decrypted, "");
}

#[test]
fn round_trip_non_ascii() {
    let kp = generate_keypair().unwrap();
    let message = "héllo wörld — звук 🎉 and ✓";
    let encrypted = encrypt_message(message, &kp.public_key).unwrap();
    let decrypted = decrypt_message(&encrypted, &kp.secret_key).unwrap();
    assert_eq!(decrypted, message);
}

#[test]
fn round_trip_long_message() {
    // Longer than the 32-byte shared secret, so the keystream repeats.
    let kp = generate_keypair().unwrap();
    let message = "0123456789".repeat(50);
    let encrypted = encrypt_message(&message, &kp.public_key).unwrap();
    let decrypted = decrypt_message(&encrypted, &kp.secret_key).unwrap();
    assert_eq!(decrypted, message);
}

#[test]
fn ciphertext_length_equals_plaintext_bytes() {
    let kp = generate_keypair().unwrap();
    for message in ["", "a", "hello world", "héllo 🎉", "xyz".repeat(100).as_str()] {
        let encrypted = encrypt_message(message, &kp.public_key).unwrap();
        let cipher_bytes = base64::decode(&encrypted.ciphertext).unwrap();
        assert_eq!(cipher_bytes.len(), message.as_bytes().len());
    }
}

#[test]
fn encapsulated_key_has_fixed_size() {
    let kp = generate_keypair().unwrap();
    let encrypted = encrypt_message("hi", &kp.public_key).unwrap();
    let kem_ct = base64::decode(&encrypted.encapsulated_key).unwrap();
    assert_eq!(kem_ct.len(), 1088);
}

#[test]
fn generated_keys_have_fixed_sizes() {
    let kp = generate_keypair().unwrap();
    assert_eq!(base64::decode(&kp.public_key).unwrap().len(), 1184);
    assert_eq!(base64::decode(&kp.secret_key).unwrap().len(), 2400);
}

#[test]
fn encrypting_twice_differs() {
    let kp = generate_keypair().unwrap();
    let first = encrypt_message("same plaintext", &kp.public_key).unwrap();
    let second = encrypt_message("same plaintext", &kp.public_key).unwrap();
    // Fresh encapsulation each call: the same message encrypts differently.
    assert_ne!(first.encapsulated_key, second.encapsulated_key);
    assert_ne!(first.ciphertext, second.ciphertext);
}

#[test]
fn wrong_secret_key_never_restores_plaintext() {
    let k1 = generate_keypair().unwrap();
    let k2 = generate_keypair().unwrap();
    let message = "original text";
    let encrypted = encrypt_message(message, &k1.public_key).unwrap();
    // No authentication tag: decrypting with the wrong key either fails
    // UTF-8 validation or yields wrong content, never the original.
    match decrypt_message(&encrypted, &k2.secret_key) {
        Ok(text) => assert_ne!(text, message),
        Err(e) => assert_eq!(e, CryptoError::Utf8DecodeError),
    }
}

#[test]
fn size_mismatch_is_a_hard_error() {
    let kp = generate_keypair().unwrap();
    let encrypted = encrypt_message("hello world", &kp.public_key).unwrap();
    // An encapsulated key of 32 decoded bytes, not the fixed 1088.
    let short = EncryptedMessage {
        ciphertext: encrypted.ciphertext.clone(),
        encapsulated_key: base64::encode([7u8; 32]),
    };
    let r = decrypt_message(&short, &kp.secret_key);
    assert_eq!(r.unwrap_err(), CryptoError::CiphertextSizeMismatch);

    // One byte short of the fixed size.
    let near = EncryptedMessage {
        ciphertext: encrypted.ciphertext.clone(),
        encapsulated_key: base64::encode([7u8; 1087]),
    };
    let r = decrypt_message(&near, &kp.secret_key);
    assert_eq!(r.unwrap_err(), CryptoError::CiphertextSizeMismatch);
}

#[test]
fn corrupt_encapsulated_key_never_crashes() {
    let kp = generate_keypair().unwrap();
    let message = "hello world";
    let encrypted = encrypt_message(message, &kp.public_key).unwrap();
    // Flip one base64 character without changing the decoded length.
    let mut chars: Vec<char> = encrypted.encapsulated_key.chars().collect();
    chars[10] = if chars[10] == 'A' { 'B' } else { 'A' };
    let corrupted = EncryptedMessage {
        ciphertext: encrypted.ciphertext.clone(),
        encapsulated_key: chars.into_iter().collect(),
    };
    match decrypt_message(&corrupted, &kp.secret_key) {
        Ok(text) => assert_ne!(text, message),
        Err(e) => assert!(matches!(
            e,
            CryptoError::Utf8DecodeError | CryptoError::KeyFormatError
                | CryptoError::CiphertextSizeMismatch
        )),
    }
}

#[test]
fn bad_public_key_is_a_format_error() {
    let r = encrypt_message("hi", "not base64 at all!!!");
    assert_eq!(r.unwrap_err(), CryptoError::KeyFormatError);
    // Valid base64, wrong decoded length.
    let r = encrypt_message("hi", &base64::encode([1u8; 100]));
    assert_eq!(r.unwrap_err(), CryptoError::KeyFormatError);
}

#[test]
fn bad_secret_key_is_a_format_error() {
    let kp = generate_keypair().unwrap();
    let encrypted = encrypt_message("hi", &kp.public_key).unwrap();
    let r = decrypt_message(&encrypted, "@@@not base64@@@");
    assert_eq!(r.unwrap_err(), CryptoError::KeyFormatError);
    let r = decrypt_message(&encrypted, &base64::encode([1u8; 100]));
    assert_eq!(r.unwrap_err(), CryptoError::KeyFormatError);
}

#[test]
fn error_descriptions_name_the_failure() {
    assert!(CryptoError::CiphertextSizeMismatch.describe().contains("size"));
    assert!(CryptoError::Utf8DecodeError.describe().contains("UTF-8"));
}
