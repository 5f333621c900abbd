use account_core::models::user::User;
use account_core::store::{AccountTable, Changeset, StoreFault};

fn row(id: u128, name: &str, email: &str, digest: &str) -> User {
    User {
        id,
        name: name.to_string(),
        email: email.to_string(),
        password: digest.to_string(),
    }
}

fn no_changes() -> Changeset {
    Changeset { name: None, email: None, password: None }
}

#[test]
fn new_table_is_empty() {
    let table = AccountTable::new();
    assert_eq!(table.len(), 0);
    assert_eq!(table.get("alice@example.com"), None);
}

#[test]
fn inserted_row_is_stored_under_its_email() {
    let mut table = AccountTable::new();
    assert_eq!(table.insert(row(1, "Alice", "alice@example.com", "$a")), Ok(()));
    assert_eq!(table.len(), 1);
    assert_eq!(table.get("alice@example.com"), Some(&row(1, "Alice", "alice@example.com", "$a")));
    assert_eq!(table.get("Alice@example.com"), None);
}

#[test]
fn insert_under_taken_email_is_refused() {
    let mut table = AccountTable::new();
    assert_eq!(table.insert(row(1, "Alice", "alice@example.com", "$a")), Ok(()));
    assert_eq!(
        table.insert(row(2, "Other", "alice@example.com", "$b")),
        Err(StoreFault::UniqueViolation)
    );
    assert_eq!(table.len(), 1);
    assert_eq!(table.get("alice@example.com"), Some(&row(1, "Alice", "alice@example.com", "$a")));
}

#[test]
fn insert_under_taken_identifier_is_refused() {
    let mut table = AccountTable::new();
    assert_eq!(table.insert(row(1, "Alice", "alice@example.com", "$a")), Ok(()));
    assert_eq!(
        table.insert(row(1, "Bob", "bob@example.com", "$b")),
        Err(StoreFault::UniqueViolation)
    );
    assert_eq!(table.len(), 1);
    assert_eq!(table.get("bob@example.com"), None);
}

#[test]
fn delete_removes_one_row() {
    let mut table = AccountTable::new();
    table.insert(row(1, "Alice", "alice@example.com", "$a")).unwrap();
    table.insert(row(2, "Bob", "bob@example.com", "$b")).unwrap();
    table.insert(row(3, "Carol", "carol@example.com", "$c")).unwrap();
    assert_eq!(table.delete_by_email("bob@example.com"), 1);
    assert_eq!(table.len(), 2);
    assert_eq!(table.get("bob@example.com"), None);
    assert_eq!(table.get("alice@example.com"), Some(&row(1, "Alice", "alice@example.com", "$a")));
    assert_eq!(table.get("carol@example.com"), Some(&row(3, "Carol", "carol@example.com", "$c")));
}

#[test]
fn delete_of_absent_email_removes_nothing() {
    let mut table = AccountTable::new();
    table.insert(row(1, "Alice", "alice@example.com", "$a")).unwrap();
    assert_eq!(table.delete_by_email("bob@example.com"), 0);
    assert_eq!(table.delete_by_email(""), 0);
    assert_eq!(table.len(), 1);
}

#[test]
fn deleted_email_and_identifier_are_free_again() {
    let mut table = AccountTable::new();
    table.insert(row(1, "Alice", "alice@example.com", "$a")).unwrap();
    assert_eq!(table.delete_by_email("alice@example.com"), 1);
    assert_eq!(table.insert(row(1, "Alice", "alice@example.com", "$z")), Ok(()));
    assert_eq!(table.get("alice@example.com"), Some(&row(1, "Alice", "alice@example.com", "$z")));
}

#[test]
fn update_sets_only_the_given_columns() {
    let mut table = AccountTable::new();
    table.insert(row(1, "Alice", "alice@example.com", "$a")).unwrap();
    let changes = Changeset { name: Some("Alicia".to_string()), ..no_changes() };
    assert_eq!(table.update_by_email("alice@example.com", changes), Ok(1));
    assert_eq!(table.get("alice@example.com"), Some(&row(1, "Alicia", "alice@example.com", "$a")));
    let changes = Changeset { password: Some("$b".to_string()), ..no_changes() };
    assert_eq!(table.update_by_email("alice@example.com", changes), Ok(1));
    assert_eq!(table.get("alice@example.com"), Some(&row(1, "Alicia", "alice@example.com", "$b")));
}

#[test]
fn update_without_columns_changes_nothing() {
    let mut table = AccountTable::new();
    table.insert(row(1, "Alice", "alice@example.com", "$a")).unwrap();
    assert_eq!(table.update_by_email("alice@example.com", no_changes()), Ok(1));
    assert_eq!(table.get("alice@example.com"), Some(&row(1, "Alice", "alice@example.com", "$a")));
}

#[test]
fn update_of_absent_email_changes_no_row() {
    let mut table = AccountTable::new();
    table.insert(row(1, "Alice", "alice@example.com", "$a")).unwrap();
    let changes = Changeset { name: Some("Bob".to_string()), ..no_changes() };
    assert_eq!(table.update_by_email("bob@example.com", changes), Ok(0));
    assert_eq!(table.get("alice@example.com"), Some(&row(1, "Alice", "alice@example.com", "$a")));
    assert_eq!(table.len(), 1);
}

#[test]
fn update_moves_the_row_to_its_new_email() {
    let mut table = AccountTable::new();
    table.insert(row(1, "Alice", "alice@example.com", "$a")).unwrap();
    table.insert(row(2, "Bob", "bob@example.com", "$b")).unwrap();
    let changes = Changeset { email: Some("alice@example.org".to_string()), ..no_changes() };
    assert_eq!(table.update_by_email("alice@example.com", changes), Ok(1));
    assert_eq!(table.get("alice@example.com"), None);
    assert_eq!(table.get("alice@example.org"), Some(&row(1, "Alice", "alice@example.org", "$a")));
    assert_eq!(table.get("bob@example.com"), Some(&row(2, "Bob", "bob@example.com", "$b")));
    assert_eq!(table.len(), 2);
}

#[test]
fn update_to_the_same_email_goes_through() {
    let mut table = AccountTable::new();
    table.insert(row(1, "Alice", "alice@example.com", "$a")).unwrap();
    let changes = Changeset { email: Some("alice@example.com".to_string()), ..no_changes() };
    assert_eq!(table.update_by_email("alice@example.com", changes), Ok(1));
    assert_eq!(table.get("alice@example.com"), Some(&row(1, "Alice", "alice@example.com", "$a")));
}

#[test]
fn update_to_a_taken_email_is_refused() {
    let mut table = AccountTable::new();
    table.insert(row(1, "Alice", "alice@example.com", "$a")).unwrap();
    table.insert(row(2, "Bob", "bob@example.com", "$b")).unwrap();
    let changes = Changeset {
        name: Some("Mallory".to_string()),
        email: Some("bob@example.com".to_string()),
        password: None,
    };
    assert_eq!(
        table.update_by_email("alice@example.com", changes),
        Err(StoreFault::UniqueViolation)
    );
    assert_eq!(table.get("alice@example.com"), Some(&row(1, "Alice", "alice@example.com", "$a")));
    assert_eq!(table.get("bob@example.com"), Some(&row(2, "Bob", "bob@example.com", "$b")));
}
