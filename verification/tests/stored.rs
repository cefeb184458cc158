use matrirc::state::{can_seal, check_pass, create_user, is_sound, login, seal_with, Blob, StateError};

fn sealed(pass: &str, plaintext: &[u8]) -> Blob {
    match seal_with(pass, vec![1; 32], vec![2; 24], &plaintext.to_vec()) {
        Ok(blob) => blob,
        Err(e) => panic!("{}", e.text()),
    }
}

fn error(r: Result<Option<Vec<u8>>, StateError>) -> String {
    match r {
        Ok(_) => panic!("let in"),
        Err(e) => e.text(),
    }
}

#[test]
fn what_is_sealed_opens_with_the_password() {
    let blob = sealed("secret", b"session");
    assert_eq!(blob.version, "argon2+chacha20poly1305");
    assert_eq!(blob.ciphertext.len(), 7 + 16);
    assert_ne!(&blob.ciphertext[..7], b"session");
    assert!(is_sound(&blob, "secret"));
    match check_pass(&blob, "secret") {
        Ok(plaintext) => assert_eq!(plaintext, b"session"),
        Err(e) => panic!("{}", e.text()),
    }
}

#[test]
fn sealing_depends_on_everything() {
    let plain = sealed("secret", b"session").ciphertext;
    assert_eq!(sealed("secret", b"session").ciphertext, plain);
    assert_ne!(sealed("Secret", b"session").ciphertext, plain);
    assert_ne!(sealed("secret", b"Session").ciphertext, plain);
    let salted = match seal_with("secret", vec![3; 32], vec![2; 24], &b"session".to_vec()) {
        Ok(blob) => blob,
        Err(e) => panic!("{}", e.text()),
    };
    assert_ne!(salted.ciphertext, plain);
    let nonced = match seal_with("secret", vec![1; 32], vec![3; 24], &b"session".to_vec()) {
        Ok(blob) => blob,
        Err(e) => panic!("{}", e.text()),
    };
    assert_ne!(nonced.ciphertext, plain);
}

#[test]
fn another_password_does_not_open() {
    let blob = sealed("secret", b"session");
    match check_pass(&blob, "guess") {
        Ok(_) => panic!("opened"),
        Err(e) => assert_eq!(e.text(), "Could not decrypt blob: bad password?"),
    }
}

#[test]
fn blobs_of_other_versions_are_refused() {
    let blob = Blob { version: "rot13".to_string(), ..sealed("secret", b"session") };
    match check_pass(&blob, "secret") {
        Ok(_) => panic!("opened"),
        Err(e) => assert_eq!(e.text(), "This version only supports argon2+chacha20poly1305"),
    }
}

#[test]
fn short_salts_are_refused() {
    let blob = Blob { salt: vec![1; 7], ..sealed("secret", b"session") };
    assert!(is_sound(&blob, "secret"));
    match check_pass(&blob, "secret") {
        Ok(_) => panic!("opened"),
        Err(e) => assert_eq!(e.text(), "Could not hash password"),
    }
    match seal_with("secret", vec![1; 7], vec![2; 24], &b"session".to_vec()) {
        Ok(_) => panic!("sealed"),
        Err(e) => assert_eq!(e.text(), "Could not hash password"),
    }
}

#[test]
fn tampering_is_noticed() {
    let mut blob = sealed("secret", b"session");
    blob.ciphertext[0] ^= 1;
    assert!(matches!(check_pass(&blob, "secret"), Err(StateError::Decrypt)));
    blob.ciphertext = vec![0; 15];
    assert!(is_sound(&blob, "secret"));
    assert!(matches!(check_pass(&blob, "secret"), Err(StateError::Decrypt)));
}

#[test]
fn nonces_have_one_length() {
    let blob = Blob { nonce: vec![2; 12], ..sealed("secret", b"session") };
    assert!(!is_sound(&blob, "secret"));
    let other = Blob { version: "x".to_string(), ..blob };
    assert!(is_sound(&other, "secret"));
}

#[test]
fn new_users_get_fresh_salts_and_nonces() {
    let plaintext = b"{\"homeserver\":\"h\"}".to_vec();
    let one = match create_user("secret", &plaintext) {
        Ok(blob) => blob,
        Err(e) => panic!("{}", e.text()),
    };
    let two = match create_user("secret", &plaintext) {
        Ok(blob) => blob,
        Err(e) => panic!("{}", e.text()),
    };
    assert_eq!((one.salt.len(), one.nonce.len()), (32, 24));
    assert_ne!(one.salt, two.salt);
    assert_ne!(one.nonce, two.nonce);
    match login("nick", "secret", Some(&one), false) {
        Ok(Some(opened)) => assert_eq!(opened, plaintext),
        _ => panic!("not let in"),
    }
}

#[test]
fn sessions_of_ordinary_length_can_be_sealed() {
    assert!(can_seal(&vec![]));
    assert!(can_seal(&vec![0; 100_000]));
}

#[test]
fn users_are_let_in() {
    let blob = sealed("secret", b"session");
    assert_eq!(login("nick", "secret", Some(&blob), true).ok().flatten(), Some(b"session".to_vec()));
    assert_eq!(
        error(login("nick", "guess", Some(&blob), true)),
        "Could not decrypt blob: bad password?"
    );
    assert!(matches!(login("nick", "secret", None, true), Ok(None)));
    assert_eq!(error(login("nick", "secret", None, false)), "unknown user nick");
}

#[test]
fn errors_in_words() {
    assert_eq!(StateError::Encrypt.text(), "Could not encrypt blob");
    assert_eq!(StateError::Random.text(), "Could not get random numbers");
}
