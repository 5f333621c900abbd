//! The decisions of the request boundary: which status and which body
//! answer a request. Decoding requests and encoding replies is the
//! transport's business; what is decided here is a function of the request
//! and of the table.

use crate::error::RepositoryError;
use crate::hashing::is_salt_text;
use crate::models::user::{
    is_random_id, update_finding_of, AccountView, CreationRequest, EmailPayload, UpdateRequest,
    User, UserUpdate, UserWithoutId, UserWithoutPassword,
};
use crate::repository::{created, found, shown_view, updated};
use crate::store::{AccountTable, Table};
use crate::validation::{email_accepted, Field, Reason, ValidationError};
use vstd::prelude::*;

verus! {

/// The request went through.
pub const OK: u16 = 200;

/// The request was refused.
pub const BAD_REQUEST: u16 = 400;

/// No account has the email.
pub const NOT_FOUND: u16 = 404;

/// What a reply carries.
#[derive(Clone, Debug, PartialEq, Eq)]
pub enum Body {
    /// A line of text for a human reader.
    Text(&'static str),
    /// An account, without its digest.
    Account(UserWithoutPassword),
}

/// A status and a body.
#[derive(Clone, Debug, PartialEq, Eq)]
pub struct Reply {
    pub status: u16,
    pub body: Body,
}

/// What a reply carries, as a mathematical value.
pub enum BodyView {
    Text(Seq<char>),
    Account(AccountView),
}

/// A reply as a mathematical value.
pub struct ReplyView {
    pub status: u16,
    pub body: BodyView,
}

impl View for Body {
    type V = BodyView;

    open spec fn view(&self) -> BodyView {
        match *self {
            Body::Text(t) => BodyView::Text(t@),
            Body::Account(a) => BodyView::Account(a@),
        }
    }
}

impl View for Reply {
    type V = ReplyView;

    open spec fn view(&self) -> ReplyView {
        ReplyView { status: self.status, body: self.body@ }
    }
}

/// The status that an error is answered with: an absent account is not
/// found, everything else is a refused request.
pub open spec fn status_of(e: RepositoryError) -> u16 {
    match e {
        RepositoryError::NotFound => NOT_FOUND,
        _ => BAD_REQUEST,
    }
}

/// The reply to a request that failed.
pub open spec fn failure_of(e: RepositoryError) -> ReplyView {
    ReplyView { status: status_of(e), body: BodyView::Text(e.message_of()) }
}

/// The reply to a request that went through with nothing to show but a
/// confirmation.
pub open spec fn confirmation_of(text: Seq<char>) -> ReplyView {
    ReplyView { status: OK, body: BodyView::Text(text) }
}

/// The reply to a creation.
pub open spec fn create_reply_of(res: Result<u128, RepositoryError>) -> ReplyView {
    match res {
        Ok(_) => confirmation_of("User created"@),
        Err(e) => failure_of(e),
    }
}

/// The reply to a lookup whose email was accepted.
pub open spec fn lookup_reply_of(shown: Option<AccountView>) -> ReplyView {
    match shown {
        Some(a) => ReplyView { status: OK, body: BodyView::Account(a) },
        None => failure_of(RepositoryError::NotFound),
    }
}

/// The reply to a lookup: a malformed email is refused before the table is
/// asked.
pub open spec fn get_reply_of(accepted: bool, shown: Option<AccountView>) -> ReplyView {
    if accepted {
        lookup_reply_of(shown)
    } else {
        failure_of(
            RepositoryError::ValidationFailed(
                ValidationError { field: Field::Email, reason: Reason::MalformedEmail },
            ),
        )
    }
}

/// The reply to a deletion: that no row went is no failure.
pub open spec fn delete_reply_of(res: Result<usize, RepositoryError>) -> ReplyView {
    match res {
        Ok(_) => confirmation_of("User deleted"@),
        Err(e) => failure_of(e),
    }
}

/// The reply to an update.
pub open spec fn update_reply_of(res: Result<(), RepositoryError>) -> ReplyView {
    match res {
        Ok(()) => confirmation_of("Updated User"@),
        Err(e) => failure_of(e),
    }
}

/// The table and the reply after a creation request, given the salt and
/// the identifier that were drawn.
pub open spec fn create_user_of(t: Table, request: CreationRequest, salt: Seq<char>, id: u128) -> (
    Table,
    ReplyView,
) {
    (created(t, request, salt, id).0, create_reply_of(created(t, request, salt, id).1))
}

/// The table and the reply after an update request, given the salt that
/// was drawn.
pub open spec fn update_user_of(t: Table, request: UpdateRequest, salt: Seq<char>) -> (
    Table,
    ReplyView,
) {
    (updated(t, request, salt).0, update_reply_of(updated(t, request, salt).1))
}

/// The status that an error is answered with.
pub fn error_status(e: RepositoryError) -> (status: u16)
    ensures
        status == status_of(e),
{
    match e {
        RepositoryError::NotFound => NOT_FOUND,
        _ => BAD_REQUEST,
    }
}

/// The reply to a request that failed. Its text names the kind of failure
/// and nothing of the request.
pub fn failure(e: RepositoryError) -> (reply: Reply)
    ensures
        reply@ == failure_of(e),
{
    Reply { status: error_status(e), body: Body::Text(e.message()) }
}

/// The reply to a creation.
pub fn create_reply(res: Result<u128, RepositoryError>) -> (reply: Reply)
    ensures
        reply@ == create_reply_of(res),
{
    match res {
        Ok(_) => Reply { status: OK, body: Body::Text("User created") },
        Err(e) => failure(e),
    }
}

/// The reply to a lookup whose email was accepted.
pub fn lookup_reply(shown: Option<UserWithoutPassword>) -> (reply: Reply)
    ensures
        reply@ == lookup_reply_of(shown_view(shown)),
{
    match shown {
        Some(account) => Reply { status: OK, body: Body::Account(account) },
        None => failure(RepositoryError::NotFound),
    }
}

/// The reply to a deletion.
pub fn delete_reply(res: Result<usize, RepositoryError>) -> (reply: Reply)
    ensures
        reply@ == delete_reply_of(res),
{
    match res {
        Ok(_) => Reply { status: OK, body: Body::Text("User deleted") },
        Err(e) => failure(e),
    }
}

/// The reply to an update.
pub fn update_reply(res: Result<(), RepositoryError>) -> (reply: Reply)
    ensures
        reply@ == update_reply_of(res),
{
    match res {
        Ok(()) => Reply { status: OK, body: Body::Text("Updated User") },
        Err(e) => failure(e),
    }
}

/// Answers a creation request against the table.
pub fn create_user(payload: UserWithoutId, conn: &mut AccountTable) -> (reply: Reply)
    requires
        old(conn).wf(),
    ensures
        final(conn).wf(),
        !email_accepted(payload.email@) ==> final(conn)@ == old(conn)@ && reply@ == get_reply_of(
            false,
            None,
        ),
        email_accepted(payload.email@) ==> exists|salt: Seq<char>, id: u128|
            is_salt_text(salt) && is_random_id(id) && #[trigger] create_user_of(
                old(conn)@,
                payload@,
                salt,
                id,
            ) == (final(conn)@, reply@),
        reply.status != OK ==> final(conn)@ == old(conn)@,
{
    let ghost before = conn@;
    let ghost request = payload@;
    let res = User::create(payload, conn);
    proof {
        if email_accepted(request.email) {
            let (salt, id) = choose|salt: Seq<char>, id: u128|
                is_salt_text(salt) && is_random_id(id) && #[trigger] created(
                    before,
                    request,
                    salt,
                    id,
                ) == (conn@, res);
            assert(create_user_of(before, request, salt, id) == (conn@, create_reply_of(res)));
        }
    }
    create_reply(res)
}

/// Answers a lookup request against the table: the email is validated
/// first, then the account is shown or reported as not found.
pub fn get_user(payload: EmailPayload, conn: &AccountTable) -> (reply: Reply)
    requires
        conn.wf(),
    ensures
        reply@ == get_reply_of(email_accepted(payload.email@), found(conn@, payload.email@)),
{
    match payload.validate() {
        Err(e) => failure(RepositoryError::ValidationFailed(e)),
        Ok(()) => lookup_reply(User::find_by_email(payload.email.as_str(), conn)),
    }
}

/// Answers a deletion request against the table.
pub fn delete_user(payload: EmailPayload, conn: &mut AccountTable) -> (reply: Reply)
    requires
        old(conn).wf(),
    ensures
        final(conn).wf(),
        reply@ == confirmation_of("User deleted"@),
        final(conn)@ == old(conn)@.remove(payload.email@),
{
    delete_reply(User::delete_by_email(payload.email.as_str(), conn))
}

/// Answers an update request against the table.
pub fn update_user(payload: UserUpdate, conn: &mut AccountTable) -> (reply: Reply)
    requires
        old(conn).wf(),
    ensures
        final(conn).wf(),
        update_finding_of(payload@) matches Err(e) ==> final(conn)@ == old(conn)@ && reply@
            == failure_of(RepositoryError::ValidationFailed(e)),
        update_finding_of(payload@) is Ok ==> exists|salt: Seq<char>|
            is_salt_text(salt) && #[trigger] update_user_of(old(conn)@, payload@, salt) == (
                final(conn)@,
                reply@,
            ),
        reply.status != OK ==> final(conn)@ == old(conn)@,
{
    let ghost before = conn@;
    let ghost request = payload@;
    let res = User::update_by_email(payload, conn);
    proof {
        if update_finding_of(request) is Ok {
            let salt = choose|salt: Seq<char>|
                is_salt_text(salt) && #[trigger] updated(before, request, salt) == (conn@, res);
            assert(update_user_of(before, request, salt) == (conn@, update_reply_of(res)));
        }
    }
    update_reply(res)
}

} // verus!
