use face_authd::enrollment::{
    as_fixed_key, check_envelope_format, decrypt_blob, enrollment_dir, enrollment_path, join_path,
    sanitize_username, seal_enrollment, EncryptedEnrollment, EnrollmentError,
};

#[test]
fn usernames_are_sanitized() {
    assert_eq!(sanitize_username("alice"), "alice");
    assert_eq!(sanitize_username("a.b-c_d"), "a.b-c_d");
    assert_eq!(sanitize_username("../etc/passwd"), ".._etc_passwd");
    assert_eq!(sanitize_username("jörg müller"), "jörg_müller");
    assert_eq!(sanitize_username(""), "");
}

#[test]
fn paths_join_like_pathbuf() {
    assert_eq!(join_path("/var/lib/face-authd", "alice"), "/var/lib/face-authd/alice");
    assert_eq!(join_path("/var/lib/face-authd/", "alice"), "/var/lib/face-authd/alice");
    assert_eq!(join_path("", "alice"), "alice");
    assert_eq!(join_path("/var", "/etc"), "/etc");
    assert_eq!(join_path("/var", ""), "/var/");
    for (base, seg) in [("/a", "b"), ("/a/", "b"), ("", "b"), ("x", "/y"), ("x", "")] {
        let std = std::path::PathBuf::from(base).join(seg);
        assert_eq!(join_path(base, seg), std.to_str().unwrap());
    }
}

#[test]
fn enrollment_locations() {
    assert_eq!(enrollment_dir(None), "/var/lib/face-authd");
    assert_eq!(enrollment_dir(Some("/tmp/x".to_string())), "/tmp/x");
    assert_eq!(
        enrollment_path("/var/lib/face-authd", "alice"),
        "/var/lib/face-authd/alice/enrollment.json"
    );
    assert_eq!(enrollment_path("/data", "bob smith"), "/data/bob_smith/enrollment.json");
    assert_eq!(enrollment_path("/data", ""), "/data/enrollment.json");
}

#[test]
fn fixed_key() {
    let k: Vec<u8> = (0..32).collect();
    assert_eq!(as_fixed_key(&k).unwrap().to_vec(), k);
    let e = as_fixed_key(&[1, 2, 3]).unwrap_err();
    assert_eq!(e, EnrollmentError::InvalidKeySize { got: 3 });
    assert_eq!(e.message(), "invalid enrollment key size in keyring: expected 32 bytes, got 3");
}

#[test]
fn sealed_enrollment_opens_to_plaintext() {
    let key = [7u8; 32];
    let nonce = [1u8; 12];
    let plain = br#"{"username":"alice","embeddings":[]}"#;
    let sealed = seal_enrollment(&key, &nonce, plain).unwrap();
    assert_eq!(sealed.format, "face-authd-enrollment-v1");
    assert_eq!(sealed.nonce_b64, "AQEBAQEBAQEBAQEB");
    assert_eq!(sealed.ciphertext_b64.len(), 72);
    assert!(sealed.ciphertext_b64.ends_with("=="));
    assert!(check_envelope_format(&sealed, "/x").is_ok());
    assert_eq!(decrypt_blob(&key, &sealed).unwrap(), plain.to_vec());
    let other_key = [8u8; 32];
    assert_eq!(decrypt_blob(&other_key, &sealed).unwrap_err(), EnrollmentError::DecryptionFailed);
}

#[test]
fn envelope_errors() {
    let key = [0u8; 32];
    let sealed = seal_enrollment(&key, &[0u8; 12], b"x").unwrap();
    let bad_format = EncryptedEnrollment { format: "v0".to_string(), ..sealed.clone() };
    let e = check_envelope_format(&bad_format, "/var/lib/face-authd/a/enrollment.json").unwrap_err();
    assert_eq!(e.message(), "unsupported enrollment format 'v0' at /var/lib/face-authd/a/enrollment.json");
    let bad_nonce = EncryptedEnrollment { nonce_b64: "!!".to_string(), ..sealed.clone() };
    assert_eq!(decrypt_blob(&key, &bad_nonce).unwrap_err().message(), "invalid nonce encoding");
    let short_nonce = EncryptedEnrollment { nonce_b64: "AAAA".to_string(), ..sealed.clone() };
    assert_eq!(
        decrypt_blob(&key, &short_nonce).unwrap_err().message(),
        "invalid nonce size: expected 12, got 3"
    );
    let bad_ct = EncryptedEnrollment { ciphertext_b64: "*".to_string(), ..sealed.clone() };
    assert_eq!(decrypt_blob(&key, &bad_ct).unwrap_err().message(), "invalid ciphertext encoding");
    let tampered = EncryptedEnrollment { ciphertext_b64: "AAAAAAAAAAAAAAAAAAAAAAAA".to_string(), ..sealed };
    assert_eq!(decrypt_blob(&key, &tampered).unwrap_err().message(), "decryption failed");
    assert_eq!(EnrollmentError::EncryptionFailed.message(), "encryption failed");
}

#[test]
fn sanitizing_twice_changes_nothing() {
    for name in ["alice", "../etc/passwd", "jörg müller", "", "a/b\\c", "_-."] {
        let once = sanitize_username(name);
        assert_eq!(sanitize_username(&once), once);
        assert!(!once.contains('/'));
        assert_eq!(once.chars().count(), name.chars().count());
    }
}

#[test]
fn users_get_their_own_files() {
    let dirs = ["/var/lib/face-authd", "/data/", "", "rel"];
    let users = ["alice", "bob", "", "a.b", "jörg"];
    for dir in dirs {
        for a in users {
            for b in users {
                if a != b {
                    assert_ne!(enrollment_path(dir, a), enrollment_path(dir, b), "{dir:?} {a:?} {b:?}");
                }
            }
        }
    }
    // Names that sanitize alike share a directory.
    assert_eq!(enrollment_path("/data", "a b"), enrollment_path("/data", "a_b"));
}

#[test]
fn only_canonical_base64_decodes() {
    let key = [0u8; 32];
    let sealed = seal_enrollment(&key, &[0u8; 12], b"x").unwrap();
    for text in ["AB==", "AAB=", "AAAA=", "AA=A", "AAA"] {
        let odd = EncryptedEnrollment { nonce_b64: text.to_string(), ..sealed.clone() };
        assert_eq!(decrypt_blob(&key, &odd).unwrap_err(), EnrollmentError::InvalidNonceEncoding, "{text}");
    }
    let canonical = EncryptedEnrollment { nonce_b64: "AA==".to_string(), ..sealed };
    assert_eq!(decrypt_blob(&key, &canonical).unwrap_err().message(), "invalid nonce size: expected 12, got 1");
}

#[test]
fn stored_key_is_read_back_unchanged() {
    let key: [u8; 32] = core::array::from_fn(|i| i as u8 * 7);
    assert_eq!(as_fixed_key(&key).unwrap(), key);
}
