//! The account table: a transactional table of accounts with a primary
//! identifier and a unique index on email, and an in-memory instance of it.
//!
//! The table is modelled as a map from email to the stored account. The
//! functions on maps below say what each statement answers and what it
//! leaves behind; [`AccountTable`] executes them. Emails are compared
//! character by character: two emails that differ in case are two emails.

use crate::hashing::same_text;
use crate::models::user::{text_view, AccountRow, User};
use vstd::prelude::*;

verus! {

/// The table as a mathematical value: the stored accounts, keyed by email.
pub type Table = Map<Seq<char>, AccountRow>;

/// What a store can answer in place of carrying a statement out.
#[derive(Clone, Copy, Debug, PartialEq, Eq, Structural)]
pub enum StoreFault {
    /// The write would break the primary key or the unique email index.
    UniqueViolation,
    /// The store could not be reached.
    Unavailable,
}

/// The columns an update statement sets. `password` holds a digest.
#[derive(Clone, Debug, PartialEq, Eq)]
pub struct Changeset {
    pub name: Option<String>,
    pub email: Option<String>,
    pub password: Option<String>,
}

/// The columns an update statement sets, as a mathematical value.
pub struct Changes {
    pub name: Option<Seq<char>>,
    pub email: Option<Seq<char>>,
    pub digest: Option<Seq<char>>,
}

impl View for Changeset {
    type V = Changes;

    open spec fn view(&self) -> Changes {
        Changes {
            name: text_view(self.name),
            email: text_view(self.email),
            digest: text_view(self.password),
        }
    }
}

/// `row` with the columns of `c` set. The identifier is no column of `c`.
pub open spec fn changed(row: AccountRow, c: Changes) -> AccountRow {
    AccountRow {
        id: row.id,
        name: match c.name {
            Some(n) => n,
            None => row.name,
        },
        email: match c.email {
            Some(e) => e,
            None => row.email,
        },
        digest: match c.digest {
            Some(d) => d,
            None => row.digest,
        },
    }
}

/// Some stored account has this identifier.
pub open spec fn holds_id(t: Table, id: u128) -> bool {
    exists|e: Seq<char>| t.dom().contains(e) && (#[trigger] t[e]).id == id
}

/// What every table satisfies: finitely many accounts, each filed under its
/// own email, no two with the same identifier.
pub open spec fn well_keyed(t: Table) -> bool {
    &&& t.dom().finite()
    &&& forall|e: Seq<char>| t.dom().contains(e) ==> (#[trigger] t[e]).email == e
    &&& forall|a: Seq<char>, b: Seq<char>|
        t.dom().contains(a) && t.dom().contains(b) && a != b ==> (#[trigger] t[a]).id != (
        #[trigger] t[b]).id
}

/// An insert is refused where the email or the identifier is taken.
pub open spec fn insert_refused(t: Table, row: AccountRow) -> bool {
    t.dom().contains(row.email) || holds_id(t, row.id)
}

/// What an insert answers.
pub open spec fn insert_reply(t: Table, row: AccountRow) -> Result<(), StoreFault> {
    if insert_refused(t, row) {
        Err(StoreFault::UniqueViolation)
    } else {
        Ok(())
    }
}

/// The table after an insert: a refused insert writes nothing.
pub open spec fn after_insert(t: Table, row: AccountRow) -> Table {
    if insert_refused(t, row) {
        t
    } else {
        t.insert(row.email, row)
    }
}

/// The account stored under an email.
pub open spec fn stored(t: Table, email: Seq<char>) -> Option<AccountRow> {
    if t.dom().contains(email) {
        Some(t[email])
    } else {
        None
    }
}

/// The number of rows a delete removes: one or none.
pub open spec fn delete_count(t: Table, email: Seq<char>) -> nat {
    if t.dom().contains(email) {
        1
    } else {
        0
    }
}

/// The table after a delete.
pub open spec fn after_delete(t: Table, email: Seq<char>) -> Table {
    t.remove(email)
}

/// An update is refused where it would move the account to an email that
/// another account holds.
pub open spec fn update_refused(t: Table, key: Seq<char>, c: Changes) -> bool {
    &&& t.dom().contains(key)
    &&& c.email matches Some(e)
    &&& e != key
    &&& t.dom().contains(e)
}

/// What an update answers: the number of rows it changed, one or none.
pub open spec fn update_reply(t: Table, key: Seq<char>, c: Changes) -> Result<nat, StoreFault> {
    if update_refused(t, key, c) {
        Err(StoreFault::UniqueViolation)
    } else if t.dom().contains(key) {
        Ok(1)
    } else {
        Ok(0)
    }
}

/// The table after an update: the changed account is filed under the email
/// it now has.
pub open spec fn after_update(t: Table, key: Seq<char>, c: Changes) -> Table {
    if t.dom().contains(key) && !update_refused(t, key, c) {
        t.remove(key).insert(changed(t[key], c).email, changed(t[key], c))
    } else {
        t
    }
}

/// The views of the stored rows, in storage order.
spec fn rows_of(rows: Seq<User>) -> Seq<AccountRow> {
    rows.map_values(|u: User| u@)
}

/// No two rows share an email or an identifier.
spec fn distinct(rows: Seq<AccountRow>) -> bool {
    forall|i: int, j: int|
        0 <= i < j < rows.len() ==> (#[trigger] rows[i]).email != (#[trigger] rows[j]).email
            && rows[i].id != rows[j].id
}

/// The emails of the rows, in storage order.
spec fn emails_of(rows: Seq<AccountRow>) -> Seq<Seq<char>> {
    rows.map_values(|r: AccountRow| r.email)
}

/// The map that a sequence of rows stands for.
spec fn table_of(rows: Seq<AccountRow>) -> Table {
    Map::new(
        |e: Seq<char>| emails_of(rows).contains(e),
        |e: Seq<char>| rows[emails_of(rows).index_of(e)],
    )
}

/// Each of distinct rows is filed in the map under its email.
proof fn lemma_row_is_filed(rows: Seq<AccountRow>, i: int)
    requires
        distinct(rows),
        0 <= i < rows.len(),
    ensures
        table_of(rows).dom().contains(rows[i].email),
        table_of(rows)[rows[i].email] == rows[i],
{
    assert(emails_of(rows)[i] == rows[i].email);
}

/// Each entry of the map is one of the rows.
proof fn lemma_entry_is_row(rows: Seq<AccountRow>, e: Seq<char>) -> (i: int)
    requires
        table_of(rows).dom().contains(e),
    ensures
        0 <= i < rows.len(),
        rows[i].email == e,
        table_of(rows)[e] == rows[i],
{
    emails_of(rows).index_of(e)
}

/// A map that files exactly the given distinct rows is the map they stand
/// for.
proof fn lemma_table_is(rows: Seq<AccountRow>, t: Table)
    requires
        distinct(rows),
        forall|i: int|
            0 <= i < rows.len() ==> t.dom().contains((#[trigger] rows[i]).email) && t[rows[i].email]
                == rows[i],
        forall|e: Seq<char>| #[trigger]
            t.dom().contains(e) ==> exists|i: int|
                0 <= i < rows.len() && (#[trigger] rows[i]).email == e,
    ensures
        table_of(rows) == t,
{
    let m = table_of(rows);
    assert forall|e: Seq<char>| m.dom().contains(e) <==> t.dom().contains(e) by {
        if m.dom().contains(e) {
            lemma_entry_is_row(rows, e);
        }
        if t.dom().contains(e) {
            let i = choose|i: int| 0 <= i < rows.len() && (#[trigger] rows[i]).email == e;
            lemma_row_is_filed(rows, i);
        }
    }
    assert forall|e: Seq<char>| m.dom().contains(e) implies m[e] == t[e] by {
        lemma_entry_is_row(rows, e);
    }
}

/// The map of distinct rows is a well-keyed table with one entry per row.
proof fn lemma_table_well_keyed(rows: Seq<AccountRow>)
    requires
        distinct(rows),
    ensures
        well_keyed(table_of(rows)),
        table_of(rows).dom().len() == rows.len(),
{
    let t = table_of(rows);
    let emails = emails_of(rows);
    vstd::seq_lib::seq_to_set_is_finite(emails);
    assert(emails.no_duplicates());
    emails.unique_seq_to_set();
    assert forall|e: Seq<char>| t.dom().contains(e) implies (#[trigger] t[e]).email == e by {
        lemma_entry_is_row(rows, e);
    }
    assert forall|a: Seq<char>, b: Seq<char>|
        t.dom().contains(a) && t.dom().contains(b) && a != b implies (#[trigger] t[a]).id != (
    #[trigger] t[b]).id by {
        lemma_entry_is_row(rows, a);
        lemma_entry_is_row(rows, b);
    }
}

/// Appending a row whose email and identifier are free inserts it into the
/// map.
proof fn lemma_push_inserts(rows: Seq<AccountRow>, row: AccountRow)
    requires
        distinct(rows),
        !insert_refused(table_of(rows), row),
    ensures
        distinct(rows.push(row)),
        table_of(rows.push(row)) == table_of(rows).insert(row.email, row),
{
    let after = rows.push(row);
    let target = table_of(rows).insert(row.email, row);
    assert forall|i: int| 0 <= i < rows.len() implies (#[trigger] rows[i]).email != row.email
        && rows[i].id != row.id by {
        lemma_row_is_filed(rows, i);
    }
    assert forall|i: int| 0 <= i < after.len() implies target.dom().contains(
        (#[trigger] after[i]).email,
    ) && target[after[i].email] == after[i] by {
        if i < rows.len() {
            lemma_row_is_filed(rows, i);
        }
    }
    assert forall|e: Seq<char>| #[trigger] target.dom().contains(e) implies exists|i: int|
        0 <= i < after.len() && (#[trigger] after[i]).email == e by {
        let i = if e == row.email {
            rows.len() as int
        } else {
            lemma_entry_is_row(rows, e)
        };
        assert(after[i].email == e);
    }
    lemma_table_is(after, target);
}

/// Taking a row out deletes its entry from the map.
proof fn lemma_remove_deletes(rows: Seq<AccountRow>, at: int)
    requires
        distinct(rows),
        0 <= at < rows.len(),
    ensures
        distinct(rows.remove(at)),
        table_of(rows.remove(at)) == table_of(rows).remove(rows[at].email),
{
    let after = rows.remove(at);
    let target = table_of(rows).remove(rows[at].email);
    assert forall|i: int| 0 <= i < rows.len() && i != at implies (#[trigger] rows[i]).email
        != rows[at].email by {
        if i < at {
            assert(rows[i].email != rows[at].email);
        } else {
            assert(rows[at].email != rows[i].email);
        }
    }
    assert forall|i: int| 0 <= i < after.len() implies target.dom().contains(
        (#[trigger] after[i]).email,
    ) && target[after[i].email] == after[i] by {
        let i0 = if i < at { i } else { i + 1 };
        lemma_row_is_filed(rows, i0);
        assert(rows[i0].email != rows[at].email);
    }
    assert forall|e: Seq<char>| #[trigger] target.dom().contains(e) implies exists|i: int|
        0 <= i < after.len() && (#[trigger] after[i]).email == e by {
        let i0 = lemma_entry_is_row(rows, e);
        let i = if i0 < at { i0 } else { i0 - 1 };
        assert(after[i].email == e);
    }
    lemma_table_is(after, target);
}

/// Replacing a row by one with the same identifier, and with an email that
/// is its own or free, files the new row in place of the old.
proof fn lemma_replace_refiles(rows: Seq<AccountRow>, at: int, fresh: AccountRow)
    requires
        distinct(rows),
        0 <= at < rows.len(),
        fresh.id == rows[at].id,
        fresh.email == rows[at].email || !table_of(rows).dom().contains(fresh.email),
    ensures
        distinct(rows.update(at, fresh)),
        table_of(rows.update(at, fresh)) == table_of(rows).remove(rows[at].email).insert(
            fresh.email,
            fresh,
        ),
{
    let after = rows.update(at, fresh);
    let target = table_of(rows).remove(rows[at].email).insert(fresh.email, fresh);
    assert forall|i: int| 0 <= i < rows.len() && i != at implies (#[trigger] rows[i]).email
        != rows[at].email && rows[i].email != fresh.email && rows[i].id != fresh.id by {
        lemma_row_is_filed(rows, i);
        if i < at {
            assert(rows[i].email != rows[at].email);
        } else {
            assert(rows[at].email != rows[i].email);
        }
    }
    assert forall|i: int| 0 <= i < after.len() implies target.dom().contains(
        (#[trigger] after[i]).email,
    ) && target[after[i].email] == after[i] by {
        if i != at {
            lemma_row_is_filed(rows, i);
            assert(rows[i].email != fresh.email);
        }
    }
    assert forall|e: Seq<char>| #[trigger] target.dom().contains(e) implies exists|i: int|
        0 <= i < after.len() && (#[trigger] after[i]).email == e by {
        let i = if e == fresh.email {
            at
        } else {
            lemma_entry_is_row(rows, e)
        };
        assert(after[i].email == e);
    }
    lemma_table_is(after, target);
}

/// An in-memory account table.
pub struct AccountTable {
    rows: Vec<User>,
}

impl View for AccountTable {
    type V = Table;

    closed spec fn view(&self) -> Table {
        table_of(rows_of(self.rows@))
    }
}

impl AccountTable {
    /// The table's invariant: no two rows share an email or an identifier.
    /// Every table that this module hands out satisfies it.
    pub closed spec fn wf(&self) -> bool {
        distinct(rows_of(self.rows@))
    }

    /// A well-formed table stands for a well-keyed map.
    pub proof fn lemma_well_keyed(&self)
        requires
            self.wf(),
        ensures
            well_keyed(self@),
    {
        lemma_table_well_keyed(rows_of(self.rows@));
    }

    /// An empty table.
    pub fn new() -> (table: AccountTable)
        ensures
            table.wf(),
            table@ == Map::<Seq<char>, AccountRow>::empty(),
    {
        let table = AccountTable { rows: Vec::new() };
        proof {
            lemma_table_well_keyed(rows_of(table.rows@));
        }
        table
    }

    /// The number of stored accounts.
    pub fn len(&self) -> (n: usize)
        requires
            self.wf(),
        ensures
            n == self@.dom().len(),
    {
        proof {
            lemma_table_well_keyed(rows_of(self.rows@));
        }
        self.rows.len()
    }

    /// Where the row with this email is stored.
    fn position(&self, email: &str) -> (at: Option<usize>)
        requires
            self.wf(),
        ensures
            match at {
                Some(i) => i < self.rows@.len() && self.rows@[i as int].email@ == email@,
                None => forall|i: int|
                    0 <= i < self.rows@.len() ==> (#[trigger] self.rows@[i]).email@ != email@,
            },
            at is Some <==> self@.dom().contains(email@),
            at matches Some(i) ==> self@[email@] == self.rows@[i as int]@,
    {
        let mut i: usize = 0;
        while i < self.rows.len()
            invariant
                i <= self.rows@.len(),
                distinct(rows_of(self.rows@)),
                forall|j: int| 0 <= j < i ==> (#[trigger] self.rows@[j]).email@ != email@,
            decreases self.rows@.len() - i,
        {
            if same_text(self.rows[i].email.as_str(), email) {
                proof {
                    lemma_row_is_filed(rows_of(self.rows@), i as int);
                }
                return Some(i);
            }
            i += 1;
        }
        proof {
            if self@.dom().contains(email@) {
                lemma_entry_is_row(rows_of(self.rows@), email@);
            }
        }
        None
    }

    /// Whether some row has this identifier.
    fn has_id(&self, id: u128) -> (held: bool)
        requires
            self.wf(),
        ensures
            held == holds_id(self@, id),
    {
        let mut i: usize = 0;
        while i < self.rows.len()
            invariant
                i <= self.rows@.len(),
                distinct(rows_of(self.rows@)),
                forall|j: int| 0 <= j < i ==> (#[trigger] self.rows@[j]).id != id,
            decreases self.rows@.len() - i,
        {
            if self.rows[i].id == id {
                proof {
                    lemma_row_is_filed(rows_of(self.rows@), i as int);
                }
                return true;
            }
            i += 1;
        }
        proof {
            if holds_id(self@, id) {
                let e = choose|e: Seq<char>|
                    self@.dom().contains(e) && (#[trigger] self@[e]).id == id;
                lemma_entry_is_row(rows_of(self.rows@), e);
            }
        }
        false
    }

    /// The account stored under `email`, digest included.
    pub fn get(&self, email: &str) -> (row: Option<&User>)
        requires
            self.wf(),
        ensures
            match row {
                Some(u) => stored(self@, email@) == Some(u@),
                None => stored(self@, email@) is None,
            },
    {
        match self.position(email) {
            Some(i) => Some(&self.rows[i]),
            None => None,
        }
    }

    /// Inserts one account, unless its email or identifier is taken.
    pub fn insert(&mut self, row: User) -> (res: Result<(), StoreFault>)
        requires
            old(self).wf(),
        ensures
            final(self).wf(),
            res == insert_reply(old(self)@, row@),
            final(self)@ == after_insert(old(self)@, row@),
    {
        if self.position(row.email.as_str()).is_some() || self.has_id(row.id) {
            return Err(StoreFault::UniqueViolation);
        }
        let ghost before = rows_of(self.rows@);
        let ghost added = row@;
        self.rows.push(row);
        proof {
            assert(rows_of(self.rows@) =~= before.push(added));
            lemma_push_inserts(before, added);
        }
        Ok(())
    }

    /// Deletes the account stored under `email`, if there is one, and says
    /// how many rows went.
    pub fn delete_by_email(&mut self, email: &str) -> (count: usize)
        requires
            old(self).wf(),
        ensures
            final(self).wf(),
            count == delete_count(old(self)@, email@),
            final(self)@ == after_delete(old(self)@, email@),
    {
        match self.position(email) {
            None => {
                assert(self@.remove(email@) =~= self@);
                0
            },
            Some(i) => {
                let ghost before = rows_of(self.rows@);
                let _gone: User = self.rows.remove(i);
                proof {
                    assert(rows_of(self.rows@) =~= before.remove(i as int));
                    lemma_remove_deletes(before, i as int);
                }
                1
            },
        }
    }

    /// Sets the columns of `changes` on the account stored under `key`, if
    /// there is one, and says how many rows changed. The update is refused
    /// where it would move the account to an email that another account
    /// holds.
    pub fn update_by_email(&mut self, key: &str, changes: Changeset) -> (res: Result<
        usize,
        StoreFault,
    >)
        requires
            old(self).wf(),
        ensures
            final(self).wf(),
            match res {
                Ok(n) => update_reply(old(self)@, key@, changes@) == Ok::<nat, StoreFault>(
                    n as nat,
                ),
                Err(f) => update_reply(old(self)@, key@, changes@) == Err::<nat, StoreFault>(f),
            },
            final(self)@ == after_update(old(self)@, key@, changes@),
    {
        let at = self.position(key);
        let i: usize = match at {
            None => {
                return Ok(0);
            },
            Some(i) => i,
        };
        let taken: bool = match &changes.email {
            Some(e) => !same_text(e.as_str(), key) && self.position(e.as_str()).is_some(),
            None => false,
        };
        if taken {
            return Err(StoreFault::UniqueViolation);
        }
        let ghost before = rows_of(self.rows@);
        let ghost c = changes@;
        let row: User = self.rows.remove(i);
        let renewed = User {
            id: row.id,
            name: match changes.name {
                Some(n) => n,
                None => row.name,
            },
            email: match changes.email {
                Some(e) => e,
                None => row.email,
            },
            password: match changes.password {
                Some(d) => d,
                None => row.password,
            },
        };
        let ghost fresh = renewed@;
        self.rows.insert(i, renewed);
        proof {
            assert(fresh == changed(before[i as int], c));
            assert(rows_of(self.rows@) =~= before.update(i as int, fresh));
            lemma_replace_refiles(before, i as int, fresh);
        }
        Ok(1)
    }
}

} // verus!
