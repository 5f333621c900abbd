//! Input validation: the one rule of this system is that an email field
//! holds a syntactically valid address.

use validator::ValidateEmail;
use vstd::prelude::*;

verus! {

/// The fields that validation looks at.
#[derive(Clone, Copy, Debug, PartialEq, Eq, Structural)]
pub enum Field {
    /// The email that identifies the account.
    Email,
    /// The email an update moves the account to.
    NewEmail,
}

/// Why a field was refused.
#[derive(Clone, Copy, Debug, PartialEq, Eq, Structural)]
pub enum Reason {
    /// The value is not a syntactically valid email address.
    MalformedEmail,
}

/// A refused field and the reason for the refusal.
#[derive(Clone, Copy, Debug, PartialEq, Eq, Structural)]
pub struct ValidationError {
    pub field: Field,
    pub reason: Reason,
}

/// Whether the `validator` crate accepts a text as an email address.
pub uninterp spec fn email_accepted(email: Seq<char>) -> bool;

/// What validating one email field yields, given whether it was accepted.
pub open spec fn email_finding_of(field: Field, accepted: bool) -> Result<(), ValidationError> {
    if accepted {
        Ok(())
    } else {
        Err(ValidationError { field, reason: Reason::MalformedEmail })
    }
}

/// What validating an optional email field yields: an absent field passes.
pub open spec fn optional_email_finding_of(field: Field, value: Option<Seq<char>>) -> Result<
    (),
    ValidationError,
> {
    match value {
        Some(v) => email_finding_of(field, email_accepted(v)),
        None => Ok(()),
    }
}

/// Calls `ValidateEmail::validate_email` of `validator`. The answer is a
/// function of the text. A text without `@` is never accepted.
#[verifier::external_body]
fn check_email(email: &str) -> (ok: bool)
    ensures
        ok == email_accepted(email@),
        ok ==> email@.contains('@'),
{
    email.validate_email()
}

impl Field {
    /// The field's name as requests spell it.
    pub open spec fn name_of(self) -> Seq<char> {
        match self {
            Field::Email => "email"@,
            Field::NewEmail => "new_email"@,
        }
    }

    /// The field's name as requests spell it.
    pub fn name(self) -> (s: &'static str)
        ensures
            s@ == self.name_of(),
    {
        match self {
            Field::Email => "email",
            Field::NewEmail => "new_email",
        }
    }
}

/// Turns the answer of the email check into a finding for `field`.
pub fn email_finding(field: Field, accepted: bool) -> (res: Result<(), ValidationError>)
    ensures
        res == email_finding_of(field, accepted),
{
    if accepted {
        Ok(())
    } else {
        Err(ValidationError { field, reason: Reason::MalformedEmail })
    }
}

/// Validates one email field. A value without `@` is always refused.
pub fn validate_email_field(field: Field, value: &str) -> (res: Result<(), ValidationError>)
    ensures
        res == email_finding_of(field, email_accepted(value@)),
        !value@.contains('@') ==> res == Err::<(), ValidationError>(
            ValidationError { field, reason: Reason::MalformedEmail },
        ),
{
    email_finding(field, check_email(value))
}

/// Validates an email field that may be absent.
pub fn validate_optional_email_field(field: Field, value: &Option<String>) -> (res: Result<
    (),
    ValidationError,
>)
    ensures
        res == optional_email_finding_of(
            field,
            match *value {
                Some(v) => Some(v@),
                None => None,
            },
        ),
{
    match value {
        Some(v) => validate_email_field(field, v.as_str()),
        None => Ok(()),
    }
}

} // verus!
