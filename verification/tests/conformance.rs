//! Cross-backend conformance: the in-memory backend and the decision
//! logic of the record-storing backends produce the same externally
//! observable results for the same operation sequence, modulo listing
//! order and the identifiers each backend mints.

use rust_webapp::idtext::format_user_id;
use rust_webapp::memory::MemoryUserRepo;
use rust_webapp::records::StoredRecord;
use rust_webapp::records::decode_records;
use rust_webapp::records::interpret_fetch;
use rust_webapp::records::prepare_new_user;
use rust_webapp::relational::RemoveAction;
use rust_webapp::relational::plan_remove;
use rust_webapp::users::User;
use rust_webapp::users::UserId;
use rust_webapp::users::UserRepo;
use rust_webapp::users::UserRepoError;

/// A driver stand-in: rows in a vector, fetched and deleted by the
/// stored identifier text, with the backend's verified decision
/// functions wired exactly as the relational transaction runs them.
struct RowStore {
    rows: Vec<StoredRecord>,
}

impl RowStore {
    fn new() -> RowStore {
        RowStore { rows: Vec::new() }
    }

    fn fetch(&self, id: UserId) -> Option<StoredRecord> {
        let key = format_user_id(&id);
        self.rows.iter().find(|r| r.id_text == key).map(|r| StoredRecord {
            id_text: r.id_text.clone(),
            username: r.username.clone(),
            email: r.email.clone(),
        })
    }

    fn add(&mut self, username: &str, email: &str) -> Result<User, UserRepoError> {
        let (user, rec) = prepare_new_user(username, email);
        self.rows.push(rec);
        Ok(user)
    }

    fn get(&self, id: UserId) -> Result<Option<User>, UserRepoError> {
        interpret_fetch(self.fetch(id))
    }

    fn remove(&mut self, id: UserId) -> Result<Option<User>, UserRepoError> {
        // the transaction: read, then decide, then delete and commit
        // or roll back
        match plan_remove(self.fetch(id))? {
            RemoveAction::RollBack => Ok(None),
            RemoveAction::DeleteAndCommit(user) => {
                let key = format_user_id(&id);
                self.rows.retain(|r| r.id_text != key);
                Ok(Some(user))
            }
        }
    }

    fn list(&self) -> Result<Vec<User>, UserRepoError> {
        decode_records(&self.rows)
    }
}

fn names_of(mut users: Vec<User>) -> Vec<String> {
    users.sort_by(|a, b| a.username.cmp(&b.username));
    users.into_iter().map(|u| u.username).collect()
}

#[test]
fn backends_agree_on_the_same_operation_sequence() {
    let mut memory = MemoryUserRepo::new();
    let mut rows = RowStore::new();

    // add two records on each backend
    let m1 = memory.add_user("johndoe", "johndoe@example.com").unwrap();
    let r1 = rows.add("johndoe", "johndoe@example.com").unwrap();
    memory.add_user("janedoe", "jane@example.com").unwrap();
    rows.add("janedoe", "jane@example.com").unwrap();

    // both list the same records, modulo order
    assert_eq!(
        names_of(memory.list_users().unwrap()),
        names_of(rows.list().unwrap())
    );

    // both find the first record under its own identifier
    assert_eq!(
        memory.get_user(m1.id).unwrap().unwrap().username,
        rows.get(r1.id).unwrap().unwrap().username
    );

    // both hand the removed value back exactly once
    let removed_m = memory.remove_user(m1.id).unwrap().unwrap();
    let removed_r = rows.remove(r1.id).unwrap().unwrap();
    assert_eq!(removed_m.username, removed_r.username);
    assert_eq!(removed_m.email, removed_r.email);
    assert!(memory.remove_user(m1.id).unwrap().is_none());
    assert!(rows.remove(r1.id).unwrap().is_none());

    // both report absence for the removed identifier
    assert!(memory.get_user(m1.id).unwrap().is_none());
    assert!(rows.get(r1.id).unwrap().is_none());

    // both still list exactly the remaining record
    assert_eq!(names_of(memory.list_users().unwrap()), vec!["janedoe"]);
    assert_eq!(names_of(rows.list().unwrap()), vec!["janedoe"]);
}

#[test]
fn remove_plan_matches_the_contract() {
    assert!(matches!(plan_remove(None), Ok(RemoveAction::RollBack)));

    let (user, rec) = prepare_new_user("alice", "alice@example.com");
    match plan_remove(Some(rec)) {
        Ok(RemoveAction::DeleteAndCommit(got)) => {
            assert_eq!(got.id, user.id);
            assert_eq!(got.username, "alice");
        }
        other => panic!("expected delete-and-commit, got {:?}", other),
    }

    let mangled = StoredRecord {
        id_text: "mangled".to_string(),
        username: "alice".to_string(),
        email: "alice@example.com".to_string(),
    };
    match plan_remove(Some(mangled)) {
        Err(UserRepoError::Unexpected { message }) => assert_eq!(message, "mangled"),
        other => panic!("expected an unexpected failure, got {:?}", other),
    }
}
