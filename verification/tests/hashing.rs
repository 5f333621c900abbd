use account_core::hashing::{
    hash_my_password, hash_with_salt, judge, same_text, seal_digest, verify_password,
    HashingError, Verdict,
};

const HEADER: &str = "$argon2id$v=19$m=19456,t=2,p=1$";
const SALT: &str = "c29tZXNhbHRzb21lc2FsdA";

fn is_b64(c: char) -> bool {
    c.is_ascii_alphanumeric() || c == '+' || c == '/'
}

#[test]
fn digest_is_never_the_secret() {
    let digest = hash_my_password("pw123".to_string()).unwrap();
    assert_ne!(digest, "pw123");
    assert!(!digest.contains("pw123"));
}

#[test]
fn digest_describes_algorithm_and_parameters() {
    let digest = hash_my_password("pw123".to_string()).unwrap();
    assert!(digest.starts_with(HEADER));
    assert_eq!(digest.len(), 31 + 22 + 1 + 43);
    let rest = &digest[HEADER.len()..];
    let parts: Vec<&str> = rest.split('$').collect();
    assert_eq!(parts.len(), 2);
    assert_eq!(parts[0].len(), 22);
    assert_eq!(parts[1].len(), 43);
    assert!(parts[0].chars().all(is_b64));
    assert!(parts[1].chars().all(is_b64));
}

#[test]
fn same_secret_hashes_to_different_digests() {
    let first = hash_my_password("pw123".to_string()).unwrap();
    let second = hash_my_password("pw123".to_string()).unwrap();
    assert_ne!(first, second);
    assert_ne!(first[31..53], second[31..53]);
}

#[test]
fn digest_under_a_given_salt_is_exact() {
    let digest = hash_with_salt("pw123", SALT).unwrap();
    assert_eq!(
        digest,
        "$argon2id$v=19$m=19456,t=2,p=1$c29tZXNhbHRzb21lc2FsdA$FUedFr0ae2L/YoFAvPI/K3HyWJv3c83Sjr5LUtex6BI"
    );
}

#[test]
fn digest_under_a_given_salt_is_repeatable() {
    let first = hash_with_salt("pw123", SALT).unwrap();
    let second = hash_with_salt("pw123", SALT).unwrap();
    assert_eq!(first, second);
    assert_eq!(&first[31..53], SALT);
}

#[test]
fn different_salts_give_different_digests() {
    let first = hash_with_salt("pw123", "c29tZXNhbHRzb21lc2FsdA").unwrap();
    let second = hash_with_salt("pw123", "b3RoZXJzYWx0b3RoZXJzYQ").unwrap();
    assert_ne!(first, second);
}

#[test]
fn salt_that_is_no_b64_gives_derivation_error() {
    assert_eq!(hash_with_salt("pw123", "!!!!!!!!!!!!"), Err(HashingError::Derivation));
}

#[test]
fn salt_that_is_too_short_gives_derivation_error() {
    assert_eq!(hash_with_salt("pw123", "abc"), Err(HashingError::Derivation));
    assert_eq!(hash_with_salt("pw123", ""), Err(HashingError::Derivation));
}

#[test]
fn empty_secret_is_hashed_too() {
    let digest = hash_my_password(String::new()).unwrap();
    assert!(digest.starts_with(HEADER));
    assert_eq!(verify_password("", &digest), Ok(true));
    assert_eq!(verify_password("x", &digest), Ok(false));
}

#[test]
fn verify_accepts_the_secret_that_was_hashed() {
    let digest = hash_my_password("pw123".to_string()).unwrap();
    assert_eq!(verify_password("pw123", &digest), Ok(true));
}

#[test]
fn verify_rejects_another_secret() {
    let digest = hash_my_password("pw123".to_string()).unwrap();
    assert_eq!(verify_password("pw124", &digest), Ok(false));
    assert_eq!(verify_password("", &digest), Ok(false));
    assert_eq!(verify_password("PW123", &digest), Ok(false));
}

#[test]
fn verify_accepts_digest_made_under_given_salt() {
    let digest = hash_with_salt("correct horse", SALT).unwrap();
    assert_eq!(verify_password("correct horse", &digest), Ok(true));
    assert_eq!(verify_password("correct horsf", &digest), Ok(false));
}

#[test]
fn verify_fails_closed_on_malformed_digest() {
    assert_eq!(verify_password("pw123", ""), Ok(false));
    assert_eq!(verify_password("pw123", "pw123"), Ok(false));
    assert_eq!(verify_password("pw123", "not-a-digest"), Ok(false));
    assert_eq!(verify_password("pw123", "$"), Ok(false));
    assert_eq!(verify_password("pw123", "$argon2id$v=19$m=19456,t=2,p=1$$$$"), Ok(false));
}

#[test]
fn verify_reports_a_fault_apart_from_a_mismatch() {
    let unknown_algorithm = "$nosuchalg$v=19$m=19456,t=2,p=1$c29tZXNhbHRzb21lc2FsdA$\
                             AAAAAAAAAAAAAAAAAAAAAAAAAAAAAAAAAAAAAAAAAAA";
    assert_eq!(verify_password("pw123", unknown_algorithm), Err(HashingError::Verification));
}

#[test]
fn seal_hands_out_a_digest_that_differs() {
    assert_eq!(seal_digest("pw123", Some("$digest".to_string())), Ok("$digest".to_string()));
}

#[test]
fn seal_refuses_a_digest_equal_to_the_secret() {
    assert_eq!(
        seal_digest("pw123", Some("pw123".to_string())),
        Err(HashingError::DigestEqualsSecret)
    );
}

#[test]
fn seal_reports_a_missing_digest() {
    assert_eq!(seal_digest("pw123", None), Err(HashingError::Derivation));
}

#[test]
fn judge_maps_each_verdict() {
    assert_eq!(judge(Verdict::Match), Ok(true));
    assert_eq!(judge(Verdict::Mismatch), Ok(false));
    assert_eq!(judge(Verdict::Malformed), Ok(false));
    assert_eq!(judge(Verdict::Fault), Err(HashingError::Verification));
}

#[test]
fn same_text_compares_characters() {
    assert!(same_text("abc", "abc"));
    assert!(same_text("", ""));
    assert!(!same_text("abc", "abd"));
    assert!(!same_text("abc", "ab"));
    assert!(!same_text("a", "A"));
}
