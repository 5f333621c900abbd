use account_core::error::RepositoryError;
use account_core::hashing::verify_password;
use account_core::models::user::{
    id_is_well_formed, EmailPayload, User, UserUpdate, UserWithoutId, UserWithoutPassword,
};
use account_core::validation::{Field, Reason, ValidationError};

fn request(name: &str, email: &str, password: &str) -> UserWithoutId {
    UserWithoutId {
        name: name.to_string(),
        email: email.to_string(),
        password: password.to_string(),
    }
}

fn refused(field: Field) -> ValidationError {
    ValidationError { field, reason: Reason::MalformedEmail }
}

#[test]
fn new_account_keeps_name_and_email() {
    let user = User::new(request("Alice", "alice@example.com", "pw123")).unwrap();
    assert_eq!(user.name, "Alice");
    assert_eq!(user.email, "alice@example.com");
}

#[test]
fn new_account_holds_a_digest_not_the_secret() {
    let user = User::new(request("Alice", "alice@example.com", "pw123")).unwrap();
    assert_ne!(user.password, "pw123");
    assert!(user.password.starts_with("$argon2id$"));
    assert_eq!(verify_password("pw123", &user.password), Ok(true));
    assert_eq!(verify_password("pw1234", &user.password), Ok(false));
}

#[test]
fn new_account_has_a_random_identifier() {
    let first = User::new(request("Alice", "alice@example.com", "pw123")).unwrap();
    let second = User::new(request("Alice", "alice@example.com", "pw123")).unwrap();
    assert!(id_is_well_formed(first.id));
    assert!(id_is_well_formed(second.id));
    assert_ne!(first.id, second.id);
}

#[test]
fn identifier_bits_are_checked() {
    assert!(id_is_well_formed(0x0000_0000_0000_4000_8000_0000_0000_0000));
    assert!(id_is_well_formed(0xffff_ffff_ffff_4fff_bfff_ffff_ffff_ffff));
    assert!(!id_is_well_formed(0));
    assert!(!id_is_well_formed(0x0000_0000_0000_1000_8000_0000_0000_0000));
    assert!(!id_is_well_formed(0x0000_0000_0000_4000_c000_0000_0000_0000));
    assert!(!id_is_well_formed(u128::MAX));
}

#[test]
fn new_account_with_malformed_email_is_refused() {
    let res = User::new(request("Alice", "not-an-email", "pw123"));
    assert_eq!(res, Err(RepositoryError::ValidationFailed(refused(Field::Email))));
}

#[test]
fn projection_drops_the_digest() {
    let user = User {
        id: 7,
        name: "Alice".to_string(),
        email: "alice@example.com".to_string(),
        password: "$digest".to_string(),
    };
    let shown = user.without_password();
    assert_eq!(
        shown,
        UserWithoutPassword {
            id: 7,
            name: "Alice".to_string(),
            email: "alice@example.com".to_string(),
        }
    );
    assert!(!format!("{:?}", shown).contains("$digest"));
}

#[test]
fn payloads_validate_their_email() {
    assert_eq!(EmailPayload { email: "alice@example.com".to_string() }.validate(), Ok(()));
    assert_eq!(
        EmailPayload { email: "alice".to_string() }.validate(),
        Err(refused(Field::Email))
    );
    assert_eq!(request("A", "a@b.cz", "x").validate(), Ok(()));
    assert_eq!(request("A", "a.b.cz", "x").validate(), Err(refused(Field::Email)));
    let user = User {
        id: 1,
        name: "A".to_string(),
        email: "nobody".to_string(),
        password: "d".to_string(),
    };
    assert_eq!(user.validate(), Err(refused(Field::Email)));
    assert_eq!(user.without_password().validate(), Err(refused(Field::Email)));
}

#[test]
fn update_request_checks_lookup_email_first() {
    let update = UserUpdate {
        name: None,
        email: "nobody".to_string(),
        new_email: Some("nothing".to_string()),
        password: None,
    };
    assert_eq!(update.validate(), Err(refused(Field::Email)));
}

#[test]
fn update_request_checks_new_email() {
    let update = UserUpdate {
        name: None,
        email: "alice@example.com".to_string(),
        new_email: Some("nothing".to_string()),
        password: None,
    };
    assert_eq!(update.validate(), Err(refused(Field::NewEmail)));
    let update = UserUpdate {
        name: None,
        email: "alice@example.com".to_string(),
        new_email: Some("alice@example.org".to_string()),
        password: None,
    };
    assert_eq!(update.validate(), Ok(()));
}

#[test]
fn update_request_turns_secret_into_digest() {
    let update = UserUpdate {
        name: Some("Alicia".to_string()),
        email: "alice@example.com".to_string(),
        new_email: None,
        password: Some("new-secret".to_string()),
    };
    let changes = update.into_changes().unwrap();
    assert_eq!(changes.name, Some("Alicia".to_string()));
    assert_eq!(changes.email, None);
    let digest = changes.password.unwrap();
    assert_ne!(digest, "new-secret");
    assert_eq!(verify_password("new-secret", &digest), Ok(true));
}

#[test]
fn update_request_without_secret_sets_no_digest() {
    let update = UserUpdate {
        name: None,
        email: "alice@example.com".to_string(),
        new_email: Some("alice@example.org".to_string()),
        password: None,
    };
    let changes = update.into_changes().unwrap();
    assert_eq!(changes.name, None);
    assert_eq!(changes.email, Some("alice@example.org".to_string()));
    assert_eq!(changes.password, None);
}

#[test]
fn update_request_with_malformed_email_prepares_nothing() {
    let update = UserUpdate {
        name: None,
        email: "alice".to_string(),
        new_email: None,
        password: Some("new-secret".to_string()),
    };
    assert_eq!(
        update.into_changes(),
        Err(RepositoryError::ValidationFailed(refused(Field::Email)))
    );
}
