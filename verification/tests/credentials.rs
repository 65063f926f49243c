use homeserver_auth::credentials::{
    digest_matches, hash_password, is_hashable, verify, NewUser, UserStore,
};
use homeserver_auth::encoding::{constant_time_eq, from_base64, from_base64url, to_base64};
use homeserver_auth::error::AuthError;
use homeserver_auth::identity::{resolve, Identity};

fn identity(text: &str) -> Identity {
    resolve(text, "example.org").unwrap()
}

fn store_with(id: &str, password: &str, salt: &str) -> UserStore {
    let mut users = UserStore::new();
    let new_user = NewUser {
        id: id.to_string(),
        salt: salt.to_string(),
        password_hash: hash_password(password, salt).unwrap(),
    };
    users.insert(new_user).unwrap();
    users
}

#[test]
fn base64_encodes() {
    assert_eq!(to_base64(b"hello").unwrap(), "aGVsbG8=");
    assert_eq!(to_base64(b"").unwrap(), "");
    assert_eq!(to_base64(&[0xfb, 0xff]).unwrap(), "+/8=");
}

#[test]
fn base64_decodes() {
    assert_eq!(from_base64("aGVsbG8=").unwrap(), b"hello".to_vec());
    assert_eq!(from_base64("+/8=").unwrap(), vec![0xfb, 0xff]);
    assert_eq!(from_base64("").unwrap(), Vec::<u8>::new());
    assert!(from_base64("a!==").is_none());
    assert!(from_base64("-_8=").is_none());
}

#[test]
fn base64url_decodes() {
    assert_eq!(from_base64url(b"aGVsbG8").unwrap(), b"hello".to_vec());
    assert_eq!(from_base64url(b"-_8").unwrap(), vec![0xfb, 0xff]);
    assert!(from_base64url(b"+/8").is_none());
}

#[test]
fn base64_round_trip() {
    let bytes: Vec<u8> = (0..=255u8).collect();
    let text = to_base64(&bytes).unwrap();
    assert_eq!(from_base64(&text).unwrap(), bytes);
}

#[test]
fn constant_time_eq_compares() {
    assert!(constant_time_eq(b"", b""));
    assert!(constant_time_eq(b"abc", b"abc"));
    assert!(!constant_time_eq(b"abc", b"abd"));
    assert!(!constant_time_eq(b"abc", b"xbc"));
    assert!(!constant_time_eq(b"abc", b"ab"));
    assert!(!constant_time_eq(b"", b"a"));
    assert!(!constant_time_eq(&[0x00], &[0x80]));
    assert!(!constant_time_eq(&[0x01, 0x02], &[0x02, 0x01]));
}

#[test]
fn hash_is_the_base64_of_the_argon2i_digest() {
    let expected = base64::encode(argon2rs::argon2i_simple("secret", "extremely insecure"));
    let hash = hash_password("secret", "extremely insecure").unwrap();
    assert_eq!(hash, expected);
    assert_eq!(from_base64(&hash).unwrap().len(), 32);
    assert_ne!(hash, "secret");
}

#[test]
fn hash_depends_on_password_and_salt() {
    let a = hash_password("secret", "saltsalt").unwrap();
    assert_eq!(a, hash_password("secret", "saltsalt").unwrap());
    assert_ne!(a, hash_password("secreu", "saltsalt").unwrap());
    assert_ne!(a, hash_password("secret", "saltsalu").unwrap());
}

#[test]
fn hash_needs_eight_bytes_of_salt() {
    assert!(is_hashable("secret", "12345678"));
    assert!(!is_hashable("secret", "1234567"));
    assert!(is_hashable("", "12345678"));
    assert!(hash_password("secret", "1234567").is_none());
    assert!(hash_password("secret", "").is_none());
    // Eight bytes, not eight characters.
    assert!(is_hashable("secret", "\u{e9}\u{e9}\u{e9}\u{e9}"));
    assert!(!is_hashable("secret", "\u{e9}\u{e9}\u{e9}a"));
}

#[test]
fn digest_matches_compares_digests() {
    let digest = argon2rs::argon2i_simple("secret", "saltsalt");
    let hash = hash_password("secret", "saltsalt").unwrap();
    assert!(digest_matches(&hash, &digest));
    let mut other = digest;
    other[31] ^= 1;
    assert!(!digest_matches(&hash, &other));
    assert!(!digest_matches(&hash, &digest[..31]));
    assert!(!digest_matches("not base64!", &digest));
}

#[test]
fn verify_accepts_the_registered_password() {
    let users = store_with("@carl:example.org", "secret", "saltsalt");
    let carl = identity("@carl:example.org");
    let verified = verify(&carl, "secret", &users).unwrap();
    assert_eq!(verified.as_str(), "@carl:example.org");
}

#[test]
fn verify_rejects_any_differing_byte() {
    let users = store_with("@carl:example.org", "secret", "saltsalt");
    let carl = identity("@carl:example.org");
    for wrong in ["secreT", "Secret", "secret ", "secre", "", "wrong", "secret\0"] {
        assert_eq!(
            verify(&carl, wrong, &users).unwrap_err(),
            AuthError::InvalidCredentials
        );
    }
}

#[test]
fn verify_unknown_identity() {
    let users = store_with("@carl:example.org", "secret", "saltsalt");
    let dave = identity("@dave:example.org");
    assert_eq!(verify(&dave, "secret", &users).unwrap_err(), AuthError::UnknownIdentity);
    let nobody = UserStore::new();
    let carl = identity("@carl:example.org");
    assert_eq!(verify(&carl, "secret", &nobody).unwrap_err(), AuthError::UnknownIdentity);
}

#[test]
fn verify_rejects_a_malformed_record() {
    let mut users = UserStore::new();
    users
        .insert(NewUser {
            id: "@carl:example.org".to_string(),
            salt: "short".to_string(),
            password_hash: "%%%".to_string(),
        })
        .unwrap();
    let carl = identity("@carl:example.org");
    assert_eq!(verify(&carl, "secret", &users).unwrap_err(), AuthError::InvalidCredentials);
}

#[test]
fn user_store_keeps_one_record_per_identity() {
    let mut users = UserStore::new();
    assert_eq!(users.len(), 0);
    assert!(users.find("@carl:example.org").is_none());
    let stored = users
        .insert(NewUser {
            id: "@carl:example.org".to_string(),
            salt: "saltsalt".to_string(),
            password_hash: "aGVsbG8=".to_string(),
        })
        .unwrap();
    assert_eq!(stored.id, "@carl:example.org");
    assert_eq!(stored.salt, "saltsalt");
    assert_eq!(stored.password_hash, "aGVsbG8=");
    let again = users.insert(NewUser {
        id: "@carl:example.org".to_string(),
        salt: "othersalt".to_string(),
        password_hash: "".to_string(),
    });
    assert_eq!(again.unwrap_err(), AuthError::StorageError);
    assert_eq!(users.len(), 1);
    users
        .insert(NewUser {
            id: "@dave:example.org".to_string(),
            salt: "saltsalt".to_string(),
            password_hash: "".to_string(),
        })
        .unwrap();
    assert_eq!(users.len(), 2);
    let found = users.find("@carl:example.org").unwrap();
    assert_eq!(found.salt, "saltsalt");
    assert_eq!(found.duplicate().password_hash, "aGVsbG8=");
    assert_eq!(users.find("@dave:example.org").unwrap().id, "@dave:example.org");
    assert!(users.find("@erin:example.org").is_none());
}
