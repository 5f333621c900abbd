//! The account record, the requests that create, look up and change it, and
//! the projection that is shown to callers.

use crate::error::RepositoryError;
use crate::hashing::{
    argon2_phc, hash_my_password, hashed_with, is_salt_text, phc_verdict, sealed, Verdict,
};
use crate::validation::{
    email_accepted, email_finding_of, optional_email_finding_of, validate_email_field,
    validate_optional_email_field, Field, Reason, ValidationError,
};
use uuid::Uuid;
use vstd::prelude::*;

verus! {

/// A request to change the account found under `email`. Absent fields are
/// left as they are.
#[derive(Clone, Debug, PartialEq, Eq)]
pub struct UserUpdate {
    pub name: Option<String>,
    /// The account's current email: the lookup key.
    pub email: String,
    /// The email the account moves to.
    pub new_email: Option<String>,
    /// The new plaintext secret.
    pub password: Option<String>,
}

/// A request to create an account: the secret is still in plaintext.
#[derive(Clone, Debug, PartialEq, Eq)]
pub struct UserWithoutId {
    pub name: String,
    pub email: String,
    pub password: String,
}

/// A request that names an account by its email.
#[derive(Clone, Debug, PartialEq, Eq)]
pub struct EmailPayload {
    pub email: String,
}

/// The account as it is stored: `password` holds the credential digest.
#[derive(Clone, Debug, PartialEq, Eq)]
pub struct User {
    pub id: u128,
    pub name: String,
    pub email: String,
    pub password: String,
}

/// The account as it is shown: the credential digest is not part of it.
#[derive(Clone, Debug, PartialEq, Eq)]
pub struct UserWithoutPassword {
    pub id: u128,
    pub name: String,
    pub email: String,
}

/// The stored account as a mathematical value.
pub struct AccountRow {
    pub id: u128,
    pub name: Seq<char>,
    pub email: Seq<char>,
    pub digest: Seq<char>,
}

/// The shown account as a mathematical value.
pub struct AccountView {
    pub id: u128,
    pub name: Seq<char>,
    pub email: Seq<char>,
}

/// A creation request as a mathematical value.
pub struct CreationRequest {
    pub name: Seq<char>,
    pub email: Seq<char>,
    pub secret: Seq<char>,
}

/// An update request as a mathematical value.
pub struct UpdateRequest {
    pub name: Option<Seq<char>>,
    pub email: Seq<char>,
    pub new_email: Option<Seq<char>>,
    pub secret: Option<Seq<char>>,
}

/// The view of an optional text.
pub open spec fn text_view(t: Option<String>) -> Option<Seq<char>> {
    match t {
        Some(s) => Some(s@),
        None => None,
    }
}

impl View for User {
    type V = AccountRow;

    open spec fn view(&self) -> AccountRow {
        AccountRow { id: self.id, name: self.name@, email: self.email@, digest: self.password@ }
    }
}

impl View for UserWithoutPassword {
    type V = AccountView;

    open spec fn view(&self) -> AccountView {
        AccountView { id: self.id, name: self.name@, email: self.email@ }
    }
}

impl View for UserWithoutId {
    type V = CreationRequest;

    open spec fn view(&self) -> CreationRequest {
        CreationRequest { name: self.name@, email: self.email@, secret: self.password@ }
    }
}

impl View for UserUpdate {
    type V = UpdateRequest;

    open spec fn view(&self) -> UpdateRequest {
        UpdateRequest {
            name: text_view(self.name),
            email: self.email@,
            new_email: text_view(self.new_email),
            secret: text_view(self.password),
        }
    }
}

/// The bits that mark an identifier as a random (version 4) UUID of the
/// RFC variant.
pub open spec fn is_random_id(id: u128) -> bool {
    id & 0x0000_0000_0000_f000_c000_0000_0000_0000u128
        == 0x0000_0000_0000_4000_8000_0000_0000_0000u128
}

/// What is shown of a stored account: everything but the digest.
pub open spec fn projection(row: AccountRow) -> AccountView {
    AccountView { id: row.id, name: row.name, email: row.email }
}

/// The account that a creation request becomes, given the salt and the
/// identifier that were drawn for it.
pub open spec fn drafted(request: CreationRequest, salt: Seq<char>, id: u128) -> Result<
    AccountRow,
    RepositoryError,
> {
    if !email_accepted(request.email) {
        Err(
            RepositoryError::ValidationFailed(
                ValidationError { field: Field::Email, reason: Reason::MalformedEmail },
            ),
        )
    } else {
        match sealed(request.secret, argon2_phc(request.secret, salt)) {
            Ok(d) => Ok(
                AccountRow { id, name: request.name, email: request.email, digest: d },
            ),
            Err(e) => Err(RepositoryError::HashingError(e)),
        }
    }
}

/// The view of a drafted account or the error in its place.
pub open spec fn draft_view(res: Result<User, RepositoryError>) -> Result<
    AccountRow,
    RepositoryError,
> {
    match res {
        Ok(u) => Ok(u@),
        Err(e) => Err(e),
    }
}

/// Calls `Uuid::new_v4` of `uuid` and reads the identifier as a number.
/// Whatever the draw, the version bits say 4 and the variant bits say RFC.
#[verifier::external_body]
fn fresh_id() -> (id: u128)
    ensures
        is_random_id(id),
{
    Uuid::new_v4().as_u128()
}

/// Whether an identifier has the bits of a random UUID.
pub fn id_is_well_formed(id: u128) -> (ok: bool)
    ensures
        ok == is_random_id(id),
{
    id & 0x0000_0000_0000_f000_c000_0000_0000_0000u128
        == 0x0000_0000_0000_4000_8000_0000_0000_0000u128
}

impl EmailPayload {
    /// Checks that the email is well formed.
    pub fn validate(&self) -> (res: Result<(), ValidationError>)
        ensures
            res == email_finding_of(Field::Email, email_accepted(self.email@)),
    {
        validate_email_field(Field::Email, self.email.as_str())
    }
}

impl UserWithoutId {
    /// Checks that the email is well formed.
    pub fn validate(&self) -> (res: Result<(), ValidationError>)
        ensures
            res == email_finding_of(Field::Email, email_accepted(self.email@)),
    {
        validate_email_field(Field::Email, self.email.as_str())
    }
}

impl UserWithoutPassword {
    /// Checks that the email is well formed.
    pub fn validate(&self) -> (res: Result<(), ValidationError>)
        ensures
            res == email_finding_of(Field::Email, email_accepted(self.email@)),
    {
        validate_email_field(Field::Email, self.email.as_str())
    }
}

/// What validating an update request yields: the lookup email is checked
/// first, then the new email where there is one.
pub open spec fn update_finding_of(request: UpdateRequest) -> Result<(), ValidationError> {
    if !email_accepted(request.email) {
        email_finding_of(Field::Email, false)
    } else {
        optional_email_finding_of(Field::NewEmail, request.new_email)
    }
}

impl UserUpdate {
    /// Checks that the lookup email, and the new email where there is one,
    /// are well formed.
    pub fn validate(&self) -> (res: Result<(), ValidationError>)
        ensures
            res == update_finding_of(self@),
    {
        match validate_email_field(Field::Email, self.email.as_str()) {
            Ok(()) => validate_optional_email_field(Field::NewEmail, &self.new_email),
            Err(e) => Err(e),
        }
    }
}

impl User {
    /// Checks that the email is well formed.
    pub fn validate(&self) -> (res: Result<(), ValidationError>)
        ensures
            res == email_finding_of(Field::Email, email_accepted(self.email@)),
    {
        validate_email_field(Field::Email, self.email.as_str())
    }

    /// What callers get to see of this account.
    pub fn without_password(&self) -> (shown: UserWithoutPassword)
        ensures
            shown@ == projection(self@),
    {
        UserWithoutPassword { id: self.id, name: self.name.clone(), email: self.email.clone() }
    }

    /// Drafts the account for a creation request: the email is validated,
    /// then the secret is hashed under a fresh salt and a fresh identifier
    /// is drawn. A malformed email is refused before anything is hashed.
    ///
    /// The drafted account keeps name and email, holds a digest that
    /// differs from the secret and verifies against it, and has a random
    /// identifier.
    pub fn new(user: UserWithoutId) -> (res: Result<User, RepositoryError>)
        ensures
            !email_accepted(user.email@) ==> res == Err::<User, RepositoryError>(
                RepositoryError::ValidationFailed(
                    ValidationError { field: Field::Email, reason: Reason::MalformedEmail },
                ),
            ),
            email_accepted(user.email@) ==> exists|salt: Seq<char>, id: u128|
                is_salt_text(salt) && is_random_id(id) && #[trigger] drafted(user@, salt, id)
                    == draft_view(res),
            res matches Ok(u) ==> {
                &&& email_accepted(u.email@)
                &&& is_random_id(u.id)
                &&& u.name@ == user.name@
                &&& u.email@ == user.email@
                &&& u.password@ != user.password@
                &&& phc_verdict(user.password@, u.password@) == Verdict::Match
            },
    {
        match user.validate() {
            Err(e) => Err(RepositoryError::ValidationFailed(e)),
            Ok(()) => {
                let ghost request = user@;
                match hash_my_password(user.password) {
                    Err(e) => {
                        proof {
                            let salt = choose|salt: Seq<char>|
                                is_salt_text(salt) && #[trigger] hashed_with(
                                    request.secret,
                                    salt,
                                    Err(e),
                                );
                            let id = 0x0000_0000_0000_4000_8000_0000_0000_0000u128;
                            assert(is_random_id(id)) by (bit_vector)
                                requires
                                    id == 0x0000_0000_0000_4000_8000_0000_0000_0000u128,
                            ;
                            assert(drafted(request, salt, id) == Err::<
                                AccountRow,
                                RepositoryError,
                            >(RepositoryError::HashingError(e)));
                        }
                        Err(RepositoryError::HashingError(e))
                    },
                    Ok(digest) => {
                        let id: u128 = fresh_id();
                        let account =
                            User { id, name: user.name, email: user.email, password: digest };
                        proof {
                            let salt = choose|salt: Seq<char>|
                                is_salt_text(salt) && #[trigger] hashed_with(
                                    request.secret,
                                    salt,
                                    Ok(digest@),
                                );
                            assert(drafted(request, salt, id) == Ok::<AccountRow, RepositoryError>(
                                account@,
                            ));
                        }
                        Ok(account)
                    },
                }
            },
        }
    }
}

} // verus!
