//! The account repository: create, find, update and delete, keyed by email.
//!
//! Each operation is one statement against the account table. What comes
//! before the statement (validation, hashing, drawing an identifier) and
//! what is made of the store's answer are functions of their own, so that a
//! caller who reaches a table elsewhere runs the same decisions around its
//! own statement.

use crate::error::RepositoryError;
use crate::hashing::{
    argon2_phc, hash_my_password, hashed_with, is_salt_text, phc_verdict, sealed, Verdict,
    SALT_CHARS,
};
use crate::models::user::{
    drafted, is_random_id, projection, update_finding_of, AccountRow, AccountView,
    CreationRequest, UpdateRequest, User, UserUpdate, UserWithoutId, UserWithoutPassword,
};
use crate::store::{
    after_delete, after_insert, after_update, changed, delete_count, insert_refused, insert_reply,
    stored, update_refused, update_reply, well_keyed, AccountTable, Changes, Changeset,
    StoreFault, Table,
};
use crate::validation::{email_accepted, Field, Reason, ValidationError};
use vstd::prelude::*;

verus! {

/// The error that a refused email gives.
pub open spec fn refused_email(field: Field) -> RepositoryError {
    RepositoryError::ValidationFailed(ValidationError { field, reason: Reason::MalformedEmail })
}

/// Every stored account has an accepted email.
pub open spec fn all_accepted(t: Table) -> bool {
    forall|e: Seq<char>| t.dom().contains(e) ==> email_accepted((#[trigger] t[e]).email)
}

/// What is shown of the account stored under an email.
pub open spec fn found(t: Table, email: Seq<char>) -> Option<AccountView> {
    match stored(t, email) {
        Some(row) => Some(projection(row)),
        None => None,
    }
}

/// The view of a lookup's result.
pub open spec fn shown_view(res: Option<UserWithoutPassword>) -> Option<AccountView> {
    match res {
        Some(u) => Some(u@),
        None => None,
    }
}

/// What a store fault means to the caller of the repository.
pub open spec fn fault_error(f: StoreFault) -> RepositoryError {
    match f {
        StoreFault::UniqueViolation => RepositoryError::DuplicateEmail,
        StoreFault::Unavailable => RepositoryError::StorageUnavailable,
    }
}

/// What creation returns, given the identifier of the drafted account and
/// the store's answer to the insert.
pub open spec fn create_outcome_of(id: u128, reply: Result<(), StoreFault>) -> Result<
    u128,
    RepositoryError,
> {
    match reply {
        Ok(()) => Ok(id),
        Err(f) => Err(fault_error(f)),
    }
}

/// What deletion returns, given the store's answer.
pub open spec fn delete_outcome_of(reply: Result<nat, StoreFault>) -> Result<nat, RepositoryError> {
    match reply {
        Ok(n) => Ok(n),
        Err(_) => Err(RepositoryError::StorageUnavailable),
    }
}

/// What an update returns, given the store's answer: no row changed means
/// that no account has the email.
pub open spec fn update_outcome_of(reply: Result<nat, StoreFault>) -> Result<(), RepositoryError> {
    match reply {
        Ok(n) => if n == 0 {
            Err(RepositoryError::NotFound)
        } else {
            Ok(())
        },
        Err(f) => Err(fault_error(f)),
    }
}

/// The table and the answer after creating an account for `request`, given
/// the salt and the identifier that were drawn.
pub open spec fn created(t: Table, request: CreationRequest, salt: Seq<char>, id: u128) -> (
    Table,
    Result<u128, RepositoryError>,
) {
    match drafted(request, salt, id) {
        Err(e) => (t, Err(e)),
        Ok(row) => (after_insert(t, row), create_outcome_of(row.id, insert_reply(t, row))),
    }
}

/// The columns that an update request sets, given the salt that was drawn
/// for a new secret: both emails are validated, then the secret is hashed.
pub open spec fn changes_of(request: UpdateRequest, salt: Seq<char>) -> Result<
    Changes,
    RepositoryError,
> {
    match update_finding_of(request) {
        Err(e) => Err(RepositoryError::ValidationFailed(e)),
        Ok(()) => match request.secret {
            None => Ok(Changes { name: request.name, email: request.new_email, digest: None }),
            Some(secret) => match sealed(secret, argon2_phc(secret, salt)) {
                Ok(d) => Ok(
                    Changes { name: request.name, email: request.new_email, digest: Some(d) },
                ),
                Err(e) => Err(RepositoryError::HashingError(e)),
            },
        },
    }
}

/// The table and the answer after an update, given the salt that was drawn.
pub open spec fn updated(t: Table, request: UpdateRequest, salt: Seq<char>) -> (
    Table,
    Result<(), RepositoryError>,
) {
    match changes_of(request, salt) {
        Err(e) => (t, Err(e)),
        Ok(c) => (
            after_update(t, request.email, c),
            update_outcome_of(update_reply(t, request.email, c)),
        ),
    }
}

/// The view of prepared changes or the error in their place.
pub open spec fn changes_view(res: Result<Changeset, RepositoryError>) -> Result<
    Changes,
    RepositoryError,
> {
    match res {
        Ok(c) => Ok(c@),
        Err(e) => Err(e),
    }
}

/// Maps a store fault to the repository's error.
pub fn fault_to_error(f: StoreFault) -> (e: RepositoryError)
    ensures
        e == fault_error(f),
{
    match f {
        StoreFault::UniqueViolation => RepositoryError::DuplicateEmail,
        StoreFault::Unavailable => RepositoryError::StorageUnavailable,
    }
}

impl UserUpdate {
    /// Prepares the columns to set: both emails are validated, then the new
    /// secret, where there is one, is hashed under a fresh salt. The secret
    /// itself is never among the columns.
    pub fn into_changes(self) -> (res: Result<Changeset, RepositoryError>)
        ensures
            update_finding_of(self@) matches Err(e) ==> res matches Err(
                RepositoryError::ValidationFailed(f),
            ) && f == e,
            update_finding_of(self@) is Ok ==> exists|salt: Seq<char>|
                is_salt_text(salt) && #[trigger] changes_of(self@, salt) == changes_view(res),
            res matches Ok(c) ==> {
                &&& c.name == self.name
                &&& c.email == self.new_email
                &&& self.password is None <==> c.password is None
                &&& match (self.password, c.password) {
                    (Some(secret), Some(d)) => d@ != secret@ && phc_verdict(secret@, d@)
                        == Verdict::Match,
                    _ => true,
                }
            },
    {
        match self.validate() {
            Err(e) => Err(RepositoryError::ValidationFailed(e)),
            Ok(()) => {
                let ghost request = self@;
                match self.password {
                    None => {
                        let changes = Changeset {
                            name: self.name,
                            email: self.new_email,
                            password: None,
                        };
                        proof {
                            let salt = Seq::new(SALT_CHARS as nat, |i: int| 'A');
                            assert(changes_of(request, salt) == Ok::<Changes, RepositoryError>(
                                changes@,
                            ));
                        }
                        Ok(changes)
                    },
                    Some(secret) => {
                        let ghost plain = secret@;
                        match hash_my_password(secret) {
                            Err(e) => {
                                proof {
                                    let salt = choose|salt: Seq<char>|
                                        is_salt_text(salt) && #[trigger] hashed_with(
                                            plain,
                                            salt,
                                            Err(e),
                                        );
                                    assert(changes_of(request, salt) == Err::<
                                        Changes,
                                        RepositoryError,
                                    >(RepositoryError::HashingError(e)));
                                }
                                Err(RepositoryError::HashingError(e))
                            },
                            Ok(digest) => {
                                let changes = Changeset {
                                    name: self.name,
                                    email: self.new_email,
                                    password: Some(digest),
                                };
                                proof {
                                    let salt = choose|salt: Seq<char>|
                                        is_salt_text(salt) && #[trigger] hashed_with(
                                            plain,
                                            salt,
                                            Ok(digest@),
                                        );
                                    assert(changes_of(request, salt) == Ok::<
                                        Changes,
                                        RepositoryError,
                                    >(changes@));
                                }
                                Ok(changes)
                            },
                        }
                    },
                }
            },
        }
    }
}

impl User {
    /// What creation returns once the store has answered the insert of the
    /// account with identifier `id`.
    pub fn create_outcome(id: u128, reply: Result<(), StoreFault>) -> (res: Result<
        u128,
        RepositoryError,
    >)
        ensures
            res == create_outcome_of(id, reply),
    {
        match reply {
            Ok(()) => Ok(id),
            Err(f) => Err(fault_to_error(f)),
        }
    }

    /// What deletion returns once the store has answered.
    pub fn delete_outcome(reply: Result<usize, StoreFault>) -> (res: Result<usize, RepositoryError>)
        ensures
            match reply {
                Ok(n) => res == Ok::<usize, RepositoryError>(n),
                Err(_) => res == Err::<usize, RepositoryError>(RepositoryError::StorageUnavailable),
            },
    {
        match reply {
            Ok(n) => Ok(n),
            Err(_) => Err(RepositoryError::StorageUnavailable),
        }
    }

    /// What an update returns once the store has answered.
    pub fn update_outcome(reply: Result<usize, StoreFault>) -> (res: Result<(), RepositoryError>)
        ensures
            res == update_outcome_of(
                match reply {
                    Ok(n) => Ok(n as nat),
                    Err(f) => Err(f),
                },
            ),
    {
        match reply {
            Ok(n) => if n == 0 {
                Err(RepositoryError::NotFound)
            } else {
                Ok(())
            },
            Err(f) => Err(fault_to_error(f)),
        }
    }

    /// Creates an account: validates the request, hashes the secret, draws
    /// an identifier and inserts one row. Returns the new identifier.
    ///
    /// A request with a malformed email fails with `ValidationFailed`, an
    /// email or identifier that is taken with `DuplicateEmail`; a failed
    /// creation writes nothing. The stored digest differs from the secret
    /// and verifies against it.
    pub fn create(user: UserWithoutId, conn: &mut AccountTable) -> (res: Result<
        u128,
        RepositoryError,
    >)
        requires
            old(conn).wf(),
        ensures
            final(conn).wf(),
            !email_accepted(user.email@) ==> res == Err::<u128, RepositoryError>(
                refused_email(Field::Email),
            ),
            email_accepted(user.email@) ==> exists|salt: Seq<char>, id: u128|
                is_salt_text(salt) && is_random_id(id) && #[trigger] created(
                    old(conn)@,
                    user@,
                    salt,
                    id,
                ) == (final(conn)@, res),
            res is Err ==> final(conn)@ == old(conn)@,
            res matches Ok(id) ==> {
                &&& is_random_id(id)
                &&& email_accepted(user.email@)
                &&& !insert_refused(old(conn)@, final(conn)@[user.email@])
                &&& final(conn)@ == old(conn)@.insert(user.email@, final(conn)@[user.email@])
                &&& final(conn)@[user.email@].id == id
                &&& final(conn)@[user.email@].name == user.name@
                &&& final(conn)@[user.email@].email == user.email@
                &&& final(conn)@[user.email@].digest != user.password@
                &&& phc_verdict(user.password@, final(conn)@[user.email@].digest) == Verdict::Match
            },
            all_accepted(old(conn)@) ==> all_accepted(final(conn)@),
    {
        let ghost request = user@;
        let ghost before = conn@;
        match User::new(user) {
            Err(e) => {
                proof {
                    if email_accepted(request.email) {
                        let (salt, id) = choose|salt: Seq<char>, id: u128|
                            is_salt_text(salt) && is_random_id(id) && #[trigger] drafted(
                                request,
                                salt,
                                id,
                            ) == Err::<AccountRow, RepositoryError>(e);
                        assert(created(before, request, salt, id) == (before, Err::<
                            u128,
                            RepositoryError,
                        >(e)));
                    }
                }
                Err(e)
            },
            Ok(row) => {
                let id: u128 = row.id;
                let ghost drafted_row = row@;
                let reply = conn.insert(row);
                let res = User::create_outcome(id, reply);
                proof {
                    let (salt, id0) = choose|salt: Seq<char>, id0: u128|
                        is_salt_text(salt) && is_random_id(id0) && #[trigger] drafted(
                            request,
                            salt,
                            id0,
                        ) == Ok::<AccountRow, RepositoryError>(drafted_row);
                    assert(created(before, request, salt, id0) == (conn@, res));
                }
                res
            },
        }
    }

    /// Finds the account stored under `email` and shows it without its
    /// digest. An email that no account has gives `None`.
    pub fn find_by_email(email: &str, conn: &AccountTable) -> (res: Option<UserWithoutPassword>)
        requires
            conn.wf(),
        ensures
            shown_view(res) == found(conn@, email@),
    {
        match conn.get(email) {
            Some(row) => Some(row.without_password()),
            None => None,
        }
    }

    /// Deletes the account stored under `email` and returns the number of
    /// rows that went: one, or none where no account has the email.
    pub fn delete_by_email(email: &str, conn: &mut AccountTable) -> (res: Result<
        usize,
        RepositoryError,
    >)
        requires
            old(conn).wf(),
        ensures
            final(conn).wf(),
            res == Ok::<usize, RepositoryError>(delete_count(old(conn)@, email@) as usize),
            final(conn)@ == after_delete(old(conn)@, email@),
            all_accepted(old(conn)@) ==> all_accepted(final(conn)@),
    {
        let count: usize = conn.delete_by_email(email);
        User::delete_outcome(Ok(count))
    }

    /// Changes the account stored under the request's email: only the
    /// fields that the request holds are set, and a new secret is stored as
    /// its digest. The identifier never changes.
    ///
    /// Fails with `ValidationFailed` on a malformed email, with `NotFound`
    /// where no account has the email, with `DuplicateEmail` where the new
    /// email is another account's; a failed update writes nothing.
    pub fn update_by_email(user: UserUpdate, conn: &mut AccountTable) -> (res: Result<
        (),
        RepositoryError,
    >)
        requires
            old(conn).wf(),
        ensures
            final(conn).wf(),
            update_finding_of(user@) matches Err(e) ==> res == Err::<(), RepositoryError>(
                RepositoryError::ValidationFailed(e),
            ),
            update_finding_of(user@) is Ok ==> exists|salt: Seq<char>|
                is_salt_text(salt) && #[trigger] updated(old(conn)@, user@, salt) == (
                    final(conn)@,
                    res,
                ),
            res is Err ==> final(conn)@ == old(conn)@,
            res is Ok ==> {
                let was = old(conn)@[user.email@];
                let now_email = match user.new_email {
                    Some(e) => e@,
                    None => user.email@,
                };
                let now = final(conn)@[now_email];
                &&& old(conn)@.dom().contains(user.email@)
                &&& final(conn)@ == old(conn)@.remove(user.email@).insert(now_email, now)
                &&& now.id == was.id
                &&& now.email == now_email
                &&& now.name == match user.name {
                    Some(n) => n@,
                    None => was.name,
                }
                &&& user.password is None ==> now.digest == was.digest
                &&& user.password matches Some(secret) ==> now.digest != secret@ && phc_verdict(
                    secret@,
                    now.digest,
                ) == Verdict::Match
            },
            all_accepted(old(conn)@) ==> all_accepted(final(conn)@),
    {
        let ghost request = user@;
        let ghost before = conn@;
        proof {
            conn.lemma_well_keyed();
        }
        let key: String = user.email.clone();
        match user.into_changes() {
            Err(e) => {
                proof {
                    if update_finding_of(request) is Ok {
                        let salt = choose|salt: Seq<char>|
                            is_salt_text(salt) && #[trigger] changes_of(request, salt) == Err::<
                                Changes,
                                RepositoryError,
                            >(e);
                        assert(updated(before, request, salt) == (before, Err::<
                            (),
                            RepositoryError,
                        >(e)));
                    }
                }
                Err(e)
            },
            Ok(changes) => {
                let ghost c = changes@;
                let reply = conn.update_by_email(key.as_str(), changes);
                let res = User::update_outcome(reply);
                proof {
                    let salt = choose|salt: Seq<char>|
                        is_salt_text(salt) && #[trigger] changes_of(request, salt) == Ok::<
                            Changes,
                            RepositoryError,
                        >(c);
                    assert(updated(before, request, salt) == (conn@, res));
                }
                res
            },
        }
    }
}

/// Every statement leaves a well-keyed table well keyed.
pub proof fn lemma_statements_keep_keys(t: Table, row: AccountRow, key: Seq<char>, c: Changes)
    requires
        well_keyed(t),
    ensures
        well_keyed(after_insert(t, row)),
        well_keyed(after_delete(t, key)),
        well_keyed(after_update(t, key, c)),
{
    if t.dom().contains(key) && !update_refused(t, key, c) {
        assert(t[key].email == key);
    }
}

/// What a lookup shows does not depend on the stored digests: two tables
/// that agree on identifier, name and email of every account answer every
/// lookup alike.
pub proof fn lemma_lookup_hides_digest(t1: Table, t2: Table, email: Seq<char>)
    requires
        t1.dom() == t2.dom(),
        forall|e: Seq<char>|
            t1.dom().contains(e) ==> projection(#[trigger] t1[e]) == projection(t2[e]),
    ensures
        found(t1, email) == found(t2, email),
{
}

/// An account that was created is found under its email: the lookup shows
/// the name and email of the request and the identifier that creation
/// returned.
pub proof fn lemma_created_account_is_found(
    t: Table,
    request: CreationRequest,
    salt: Seq<char>,
    id: u128,
)
    requires
        created(t, request, salt, id).1 is Ok,
    ensures
        created(t, request, salt, id).1 == Ok::<u128, RepositoryError>(id),
        found(created(t, request, salt, id).0, request.email) == Some(
            AccountView { id, name: request.name, email: request.email },
        ),
{
}

/// A creation request whose email is refused fails validation and writes
/// nothing: every lookup answers afterwards as it did before.
pub proof fn lemma_refused_email_writes_nothing(
    t: Table,
    request: CreationRequest,
    salt: Seq<char>,
    id: u128,
    email: Seq<char>,
)
    requires
        !email_accepted(request.email),
    ensures
        created(t, request, salt, id) == (
            t,
            Err::<u128, RepositoryError>(refused_email(Field::Email)),
        ),
        found(created(t, request, salt, id).0, email) == found(t, email),
{
}

/// After a creation went through, a second creation under the same email
/// fails and writes nothing, so the table holds the first account and one
/// entry more than before the first. Where the second secret was hashed,
/// the failure is `DuplicateEmail`.
pub proof fn lemma_second_creation_is_refused(
    t: Table,
    first: CreationRequest,
    salt1: Seq<char>,
    id1: u128,
    second: CreationRequest,
    salt2: Seq<char>,
    id2: u128,
)
    requires
        well_keyed(t),
        created(t, first, salt1, id1).1 is Ok,
        second.email == first.email,
    ensures
        ({
            let t1 = created(t, first, salt1, id1).0;
            let (t2, res) = created(t1, second, salt2, id2);
            &&& res is Err
            &&& drafted(second, salt2, id2) is Ok ==> res == Err::<u128, RepositoryError>(
                RepositoryError::DuplicateEmail,
            )
            &&& t2 == t1
            &&& t1.dom().len() == t.dom().len() + 1
            &&& stored(t2, first.email) == Some(drafted(first, salt1, id1)->Ok_0)
        }),
{
}

/// Deleting under an email that no account has removes no row and leaves
/// the table as it was.
pub proof fn lemma_delete_of_absent_email(t: Table, email: Seq<char>)
    requires
        !t.dom().contains(email),
    ensures
        delete_count(t, email) == 0,
        after_delete(t, email) == t,
        delete_outcome_of(Ok(delete_count(t, email))) == Ok::<nat, RepositoryError>(0),
{
}

/// An update that holds only a name leaves identifier, email and digest of
/// the account as they were, and every other account untouched.
pub proof fn lemma_rename_keeps_email_and_digest(
    t: Table,
    request: UpdateRequest,
    salt: Seq<char>,
)
    requires
        well_keyed(t),
        request.new_email is None,
        request.secret is None,
        updated(t, request, salt).1 is Ok,
    ensures
        ({
            let t2 = updated(t, request, salt).0;
            &&& t.dom().contains(request.email)
            &&& t2.dom().contains(request.email)
            &&& t2[request.email].id == t[request.email].id
            &&& t2[request.email].email == t[request.email].email
            &&& t2[request.email].digest == t[request.email].digest
            &&& request.name matches Some(n) ==> t2[request.email].name == n
            &&& forall|other: Seq<char>|
                other != request.email ==> #[trigger] stored(t2, other) == stored(t, other)
        }),
{
}

/// An update never changes an identifier: the account that an update
/// changed is filed under its new email with the identifier it had.
pub proof fn lemma_update_keeps_identifier(t: Table, request: UpdateRequest, salt: Seq<char>)
    requires
        well_keyed(t),
        updated(t, request, salt).1 is Ok,
    ensures
        ({
            let t2 = updated(t, request, salt).0;
            let now_email = match request.new_email {
                Some(e) => e,
                None => request.email,
            };
            &&& t.dom().contains(request.email)
            &&& t2.dom().contains(now_email)
            &&& t2[now_email].id == t[request.email].id
            &&& t2[now_email].email == now_email
            &&& t2.dom().len() == t.dom().len()
        }),
{
}

} // verus!
