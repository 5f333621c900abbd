use account_core::validation::{
    email_finding, validate_email_field, validate_optional_email_field, Field, Reason,
    ValidationError,
};

fn refused(field: Field) -> Result<(), ValidationError> {
    Err(ValidationError { field, reason: Reason::MalformedEmail })
}

#[test]
fn well_formed_email_passes() {
    assert_eq!(validate_email_field(Field::Email, "alice@example.com"), Ok(()));
    assert_eq!(validate_email_field(Field::Email, "weirder-email@here.and.there.com"), Ok(()));
    assert_eq!(validate_email_field(Field::Email, "email@[127.0.0.1]"), Ok(()));
}

#[test]
fn text_without_at_sign_is_refused() {
    assert_eq!(validate_email_field(Field::Email, "not-an-email"), refused(Field::Email));
    assert_eq!(validate_email_field(Field::Email, "example.com"), refused(Field::Email));
}

#[test]
fn empty_email_is_refused() {
    assert_eq!(validate_email_field(Field::Email, ""), refused(Field::Email));
}

#[test]
fn email_with_empty_part_is_refused() {
    assert_eq!(validate_email_field(Field::Email, "alice@"), refused(Field::Email));
    assert_eq!(validate_email_field(Field::Email, "@example.com"), refused(Field::Email));
    assert_eq!(validate_email_field(Field::Email, "a @x.cz"), refused(Field::Email));
}

#[test]
fn email_with_overlong_local_part_is_refused() {
    let local = "a".repeat(65);
    let email = format!("{}@example.com", local);
    assert_eq!(validate_email_field(Field::Email, &email), refused(Field::Email));
    let local = "a".repeat(64);
    let email = format!("{}@example.com", local);
    assert_eq!(validate_email_field(Field::Email, &email), Ok(()));
}

#[test]
fn refusal_names_the_field_it_is_about() {
    assert_eq!(validate_email_field(Field::NewEmail, "nope"), refused(Field::NewEmail));
    assert_eq!(Field::Email.name(), "email");
    assert_eq!(Field::NewEmail.name(), "new_email");
}

#[test]
fn finding_follows_the_answer_of_the_check() {
    assert_eq!(email_finding(Field::Email, true), Ok(()));
    assert_eq!(email_finding(Field::Email, false), refused(Field::Email));
    assert_eq!(email_finding(Field::NewEmail, false), refused(Field::NewEmail));
}

#[test]
fn absent_optional_email_passes() {
    assert_eq!(validate_optional_email_field(Field::NewEmail, &None), Ok(()));
}

#[test]
fn present_optional_email_is_checked() {
    let good = Some("bob@example.com".to_string());
    let bad = Some("bob".to_string());
    assert_eq!(validate_optional_email_field(Field::NewEmail, &good), Ok(()));
    assert_eq!(validate_optional_email_field(Field::NewEmail, &bad), refused(Field::NewEmail));
}
