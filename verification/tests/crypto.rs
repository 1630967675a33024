use rustychain::crypto::{ArgonArgs, ArgonTool, SymmetricArgs, SymmetricTool};
use rustychain::error::Error;

const KEY: &str = "000102030405060708090a0b0c0d0e0f101112131415161718191a1b1c1d1e1f";

fn sym(action: &str, text: &str) -> Result<String, Error> {
    SymmetricTool.call(SymmetricArgs {
        action: action.to_string(),
        text: text.to_string(),
        key_hex: KEY.to_string(),
    })
}

#[test]
fn encrypted_text_decrypts_back() {
    let sealed = sym("Encrypt", "héllo").unwrap();
    let (nonce, body) = sealed.split_once(':').unwrap();
    assert_eq!(nonce.len(), 24);
    assert_eq!(body.len(), 2 * ("héllo".len() + 16));
    assert_eq!(sym("decrypt", &sealed).unwrap(), "héllo");
}

#[test]
fn a_given_nonce_leads_the_encrypted_text() {
    let nonce = vec![0u8; 12];
    let args = SymmetricArgs { action: "encrypt".into(), text: "x".into(), key_hex: KEY.into() };
    let sealed = SymmetricTool.call_with_nonce(args, &nonce).unwrap();
    assert!(sealed.starts_with("000000000000000000000000:"));
    assert_eq!(sym("decrypt", &sealed).unwrap(), "x");
}

#[test]
fn symmetric_errors() {
    match sym("decrypt", "abc") {
        Err(Error::Internal(m)) => assert_eq!(m, "Invalid encrypted format. Expected nonce:ciphertext"),
        other => panic!("unexpected {:?}", other),
    }
    assert!(matches!(sym("decrypt", "zz:00"), Err(Error::Hex(_))));
    match sym("decrypt", "000000000000000000000000:00112233445566778899aabbccddeeff00") {
        Err(Error::Encryption(m)) => assert_eq!(m, "aead::Error"),
        other => panic!("unexpected {:?}", other),
    }
    match sym("rotate", "x") {
        Err(Error::Internal(m)) => assert_eq!(m, "Invalid action"),
        other => panic!("unexpected {:?}", other),
    }
    let bad_key = SymmetricArgs { action: "encrypt".into(), text: "x".into(), key_hex: "xyz".into() };
    assert!(matches!(SymmetricTool.call(bad_key), Err(Error::Hex(_))));
}

fn argon(action: &str, password: &str, salt: Option<&str>, hash: Option<&str>) -> Result<String, Error> {
    ArgonTool.call(ArgonArgs {
        action: action.to_string(),
        password: password.to_string(),
        salt: salt.map(String::from),
        encoded_hash: hash.map(String::from),
    })
}

#[test]
fn a_password_hash_verifies_the_same_password() {
    let h = argon("hash", "secret", Some("saltsaltsalt"), None).unwrap();
    assert!(h.starts_with("$argon2id$"));
    assert_eq!(argon("VERIFY", "secret", None, Some(&h)).unwrap(), "valid");
    assert_eq!(argon("verify", "other", None, Some(&h)).unwrap(), "invalid");
}

#[test]
fn argon_errors() {
    match argon("hash", "p", None, None) {
        Err(Error::Internal(m)) => assert_eq!(m, "Salt is required for hashing"),
        other => panic!("unexpected {:?}", other),
    }
    match argon("verify", "p", None, None) {
        Err(Error::Internal(m)) => assert_eq!(m, "Encoded hash is required for verification"),
        other => panic!("unexpected {:?}", other),
    }
    assert!(matches!(argon("verify", "p", None, Some("not a hash")), Err(Error::Argon2(_))));
    // The Base64 of an eight-byte salt ends in padding, which a salt may not hold.
    assert!(matches!(argon("hash", "p", Some("saltsalt"), None), Err(Error::Argon2(_))));
    match argon("sign", "p", None, None) {
        Err(Error::Internal(m)) => assert_eq!(m, "Invalid action. Use 'hash' or 'verify'."),
        other => panic!("unexpected {:?}", other),
    }
}
