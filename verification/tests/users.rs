use auth_core::error::ApiError;
use auth_core::store::CredentialStore;
use auth_core::user::{User, UserMessage};

fn message(email: &str, password: &str) -> UserMessage {
    UserMessage { email: email.to_string(), password: password.to_string() }
}

fn store_of_two() -> CredentialStore {
    let mut store = CredentialStore::new();
    User::create_with(&mut store, message("a@x.com", "pa"), 1, 100, &[1u8; 32]).unwrap();
    User::create_with(&mut store, message("b@x.com", "pb"), 2, 200, &[2u8; 32]).unwrap();
    store
}

#[test]
fn new_store_is_empty() {
    let store = CredentialStore::new();
    assert_eq!(store.len(), 0);
    assert_eq!(store.get(0), None);
}

#[test]
fn created_user_is_stored_with_its_hash() {
    let mut store = CredentialStore::new();
    let user = User::create_with(&mut store, message("a@x.com", "p"), 1, 100, &[1u8; 32]).unwrap();
    assert_eq!(user.id, 1);
    assert_eq!(user.email, "a@x.com");
    assert_eq!(user.created_at, 100);
    assert_eq!(user.updated_at, None);
    assert_ne!(user.password, "p");
    assert_eq!(user.verify_password(b"p"), Ok(true));
    assert_eq!(store.len(), 1);
    assert_eq!(store.get(0), Some(user));
    assert_eq!(store.get(1), None);
}

#[test]
fn created_user_gets_identifier_and_time() {
    let mut store = CredentialStore::new();
    let one = User::create(&mut store, message("a@x.com", "p")).unwrap();
    let two = User::create(&mut store, message("b@x.com", "p")).unwrap();
    assert_ne!(one.id, two.id);
    assert_ne!(one.password, two.password);
    assert!(one.created_at > 1_500_000_000_000_000);
    assert_eq!(User::find(&store, one.id), Ok(one));
    assert_eq!(store.len(), 2);
}

#[test]
fn email_in_use_is_a_conflict() {
    let mut store = store_of_two();
    let again = User::create_with(&mut store, message("a@x.com", "other"), 3, 300, &[3u8; 32]);
    assert_eq!(again, Err(ApiError::Conflict));
    assert_eq!(User::create(&mut store, message("b@x.com", "other")), Err(ApiError::Conflict));
    assert_eq!(store.len(), 2);
}

#[test]
fn identifier_in_use_is_a_conflict_too() {
    let mut store = store_of_two();
    let again = User::create_with(&mut store, message("c@x.com", "pc"), 2, 300, &[3u8; 32]);
    assert_eq!(again, Err(ApiError::Conflict));
    assert_eq!(store.len(), 2);
}

#[test]
fn email_is_not_normalized() {
    let mut store = store_of_two();
    let upper = User::create_with(&mut store, message("A@x.com", "pa"), 3, 300, &[3u8; 32]);
    assert!(upper.is_ok());
    assert_eq!(User::find_by_email(&store, "A@x.com".to_string()).unwrap().id, 3);
    assert_eq!(User::find_by_email(&store, "a@x.com".to_string()).unwrap().id, 1);
}

#[test]
fn user_is_found_by_email() {
    let store = store_of_two();
    assert_eq!(User::find_by_email(&store, "b@x.com".to_string()).unwrap().id, 2);
    assert_eq!(User::find_by_email(&store, "c@x.com".to_string()), Err(ApiError::NotFound));
    assert_eq!(User::find_by_email(&store, String::new()), Err(ApiError::NotFound));
}

#[test]
fn user_is_found_by_identifier() {
    let store = store_of_two();
    assert_eq!(User::find(&store, 1).unwrap().email, "a@x.com");
    assert_eq!(User::find(&store, 3), Err(ApiError::NotFound));
}

#[test]
fn update_changes_email_hash_and_time() {
    let mut store = store_of_two();
    let before = User::find(&store, 1).unwrap();
    let after = User::update_with(&mut store, 1, message("c@x.com", "new"), 500, &[4u8; 32]).unwrap();
    assert_eq!(after.id, 1);
    assert_eq!(after.email, "c@x.com");
    assert_eq!(after.created_at, 100);
    assert_eq!(after.updated_at, Some(500));
    assert_ne!(after.password, "new");
    assert_ne!(after.password, before.password);
    assert_eq!(after.verify_password(b"new"), Ok(true));
    assert_eq!(after.verify_password(b"pa"), Ok(false));
    assert_eq!(store.get(0), Some(after));
    assert_eq!(store.get(1).unwrap().email, "b@x.com");
    assert_eq!(User::find_by_email(&store, "a@x.com".to_string()), Err(ApiError::NotFound));
}

#[test]
fn update_may_keep_the_email() {
    let mut store = store_of_two();
    let after = User::update_with(&mut store, 2, message("b@x.com", "new"), 500, &[4u8; 32]).unwrap();
    assert_eq!(after.email, "b@x.com");
    assert_eq!(after.updated_at, Some(500));
}

#[test]
fn update_with_the_clock_sets_the_time() {
    let mut store = store_of_two();
    let after = User::update(&mut store, 2, message("z@x.com", "new")).unwrap();
    assert!(after.updated_at.unwrap() > 1_500_000_000_000_000);
    assert_eq!(after.verify_password(b"new"), Ok(true));
    assert_eq!(User::update(&mut store, 9, message("y@x.com", "new")), Err(ApiError::NotFound));
}

#[test]
fn update_of_a_missing_user_is_not_found() {
    let mut store = store_of_two();
    assert_eq!(
        User::update_with(&mut store, 3, message("c@x.com", "new"), 500, &[4u8; 32]),
        Err(ApiError::NotFound)
    );
    assert_eq!(store.len(), 2);
}

#[test]
fn update_to_an_email_of_another_user_is_a_conflict() {
    let mut store = store_of_two();
    assert_eq!(
        User::update_with(&mut store, 1, message("b@x.com", "new"), 500, &[4u8; 32]),
        Err(ApiError::Conflict)
    );
    assert_eq!(User::find(&store, 1).unwrap().email, "a@x.com");
    assert_eq!(User::find(&store, 1).unwrap().updated_at, None);
}

#[test]
fn delete_removes_one_user() {
    let mut store = store_of_two();
    assert_eq!(User::delete(&mut store, 1), Ok(1));
    assert_eq!(store.len(), 1);
    assert_eq!(User::find(&store, 1), Err(ApiError::NotFound));
    assert_eq!(store.get(0).unwrap().id, 2);
    assert_eq!(User::delete(&mut store, 1), Ok(0));
    assert_eq!(store.len(), 1);
}

#[test]
fn deleted_email_can_be_taken_again() {
    let mut store = store_of_two();
    assert_eq!(User::delete(&mut store, 1), Ok(1));
    let again = User::create_with(&mut store, message("a@x.com", "p"), 3, 300, &[3u8; 32]).unwrap();
    assert_eq!(store.get(1), Some(again));
}

#[test]
fn changed_record_is_made_without_a_store() {
    let store = store_of_two();
    let before = User::find(&store, 1).unwrap();
    let after = before.changed_with(message("c@x.com", "new"), 500, &[4u8; 32]).unwrap();
    assert_eq!(after.id, 1);
    assert_eq!(after.email, "c@x.com");
    assert_eq!(after.created_at, 100);
    assert_eq!(after.updated_at, Some(500));
    assert_eq!(after.verify_password(b"new"), Ok(true));
    assert_eq!(User::find(&store, 1), Ok(before));
}

#[test]
fn changed_record_with_the_clock_is_hashed_anew() {
    let store = store_of_two();
    let before = User::find(&store, 2).unwrap();
    let one = before.changed(message("b@x.com", "pb")).unwrap();
    let two = before.changed(message("b@x.com", "pb")).unwrap();
    assert_ne!(one.password, before.password);
    assert_ne!(one.password, two.password);
    assert_eq!(one.verify_password(b"pb"), Ok(true));
    assert!(one.updated_at.unwrap() > 1_500_000_000_000_000);
}

#[test]
fn update_of_a_missing_user_is_not_found_whatever_is_sent() {
    let mut store = CredentialStore::new();
    assert_eq!(User::update(&mut store, 1, message("", "")), Err(ApiError::NotFound));
    assert_eq!(User::update_with(&mut store, 1, message("a@x.com", "p"), 0, &[0u8; 32]), Err(ApiError::NotFound));
    let mut two = store_of_two();
    assert_eq!(User::update(&mut two, 9, message("a@x.com", "p")), Err(ApiError::NotFound));
}

#[test]
fn listed_page_holds_at_most_the_page_size() {
    let store = store_of_two();
    let mut params = auth_core::listing::Params::new();
    params.page_size = Some(1);
    let (users, pages) = User::find_all(&store, params).unwrap();
    assert_eq!(users.len(), 1);
    assert_eq!(pages, 2);
}
