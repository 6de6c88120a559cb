//! The application scenarios against the in-memory backend.

use rust_webapp::application::Application;
use rust_webapp::memory::MemoryUserRepo;
use rust_webapp::users::UserRepo;

#[test]
fn test_add_user() {
    let users = MemoryUserRepo::new();
    let mut app = Application::new(users);
    assert_eq!(app.users.list_users().unwrap().len(), 0);
    app.users
        .add_user("johndoe", "johndoe@example.com")
        .unwrap();
    assert_eq!(app.users.list_users().unwrap().len(), 1);
}

#[test]
fn test_get_user() {
    let users = MemoryUserRepo::new();
    let mut app = Application::new(users);
    let user = app
        .users
        .add_user("johndoe", "johndoe@example.com")
        .unwrap();
    let fetched = app.users.get_user(user.id).unwrap().unwrap();
    assert_eq!(fetched.username, "johndoe");
    assert_eq!(fetched.email, "johndoe@example.com");
}

#[test]
fn test_list_users() {
    let users = MemoryUserRepo::new();
    let mut app = Application::new(users);
    assert_eq!(app.users.list_users().unwrap().len(), 0);
    app.users
        .add_user("johndoe", "johndoe@example.com")
        .unwrap();
    app.users
        .add_user("janedoe", "janedoe@example.com")
        .unwrap();
    assert_eq!(app.users.list_users().unwrap().len(), 2);
}

#[test]
fn test_remove_user() {
    let users = MemoryUserRepo::new();
    let mut app = Application::new(users);
    let user = app
        .users
        .add_user("johndoe", "johndoe@example.com")
        .unwrap();
    assert_eq!(app.users.list_users().unwrap().len(), 1);
    let returned = app.users.remove_user(user.id).unwrap().unwrap();
    assert_eq!(returned.username, "johndoe");
    assert_eq!(returned.email, "johndoe@example.com");
    assert_eq!(app.users.list_users().unwrap().len(), 0);
}

#[test]
fn scenario_lifecycle() {
    let mut repo = MemoryUserRepo::new();
    assert_eq!(repo.list_users().unwrap().len(), 0);

    let first = repo.add_user("johndoe", "johndoe@example.com").unwrap();
    let listed = repo.list_users().unwrap();
    assert_eq!(listed.len(), 1);
    assert_eq!(listed[0].id, first.id);
    assert_eq!(listed[0].username, "johndoe");

    repo.add_user("janedoe", "jane@example.com").unwrap();
    assert_eq!(repo.list_users().unwrap().len(), 2);

    let removed = repo.remove_user(first.id).unwrap().unwrap();
    assert_eq!(removed.id, first.id);
    assert_eq!(removed.username, "johndoe");
    assert_eq!(removed.email, "johndoe@example.com");

    let listed = repo.list_users().unwrap();
    assert_eq!(listed.len(), 1);
    assert_eq!(listed[0].username, "janedoe");

    assert!(repo.get_user(first.id).unwrap().is_none());
}

#[test]
fn add_then_get_returns_equal_value() {
    let mut repo = MemoryUserRepo::new();
    let added = repo.add_user("alice", "alice@example.com").unwrap();
    let fetched = repo.get_user(added.id).unwrap().unwrap();
    assert_eq!(fetched.id, added.id);
    assert_eq!(fetched.username, added.username);
    assert_eq!(fetched.email, added.email);
}

#[test]
fn remove_never_added_is_absent_not_error() {
    let mut repo = MemoryUserRepo::new();
    repo.add_user("alice", "alice@example.com").unwrap();
    let stranger = rust_webapp::users::fresh_user_id();
    let outcome = repo.remove_user(stranger).unwrap();
    assert!(outcome.is_none());
    assert_eq!(repo.list_users().unwrap().len(), 1);
}

#[test]
fn remove_twice_yields_value_then_absent() {
    let mut repo = MemoryUserRepo::new();
    let added = repo.add_user("bob", "bob@example.com").unwrap();
    let first = repo.remove_user(added.id).unwrap();
    assert_eq!(first.unwrap().username, "bob");
    let second = repo.remove_user(added.id).unwrap();
    assert!(second.is_none());
    assert_eq!(repo.list_users().unwrap().len(), 0);
}
