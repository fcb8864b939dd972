use password_store::Error;
use password_store::Password;
use password_store::PasswordPayload;
use password_store::PasswordStore;
use password_store::Principal;

fn owner_a() -> Principal {
    Principal::new(vec![1, 2, 3])
}

fn owner_b() -> Principal {
    Principal::new(vec![9, 9])
}

fn record(value: &str, created_at: u64, owner: Principal) -> Password {
    Password::new(String::from(value), created_at, owner)
}

#[test]
fn create_then_get_round_trips() {
    let mut store = PasswordStore::new();
    let id = store.store_password(record("Abcdefg1!", 42, owner_a()));
    assert_eq!(id, 1);
    let got = store.get_password(id).unwrap();
    assert_eq!(got.value, "Abcdefg1!");
    assert_eq!(got.created_at, 42);
    assert_eq!(got.owner.bytes, vec![1, 2, 3]);
}

#[test]
fn get_absent_id_fails_not_found() {
    let store = PasswordStore::new();
    assert_eq!(store.get_password(1).unwrap_err(), Error::NotFound);
    let mut store = PasswordStore::new();
    store.store_password(record("x", 1, owner_a()));
    assert_eq!(store.get_password(2).unwrap_err(), Error::NotFound);
}

#[test]
fn ids_start_at_one_and_increase() {
    let mut store = PasswordStore::new();
    assert_eq!(store.store_password(record("a", 1, owner_a())), 1);
    assert_eq!(store.store_password(record("b", 2, owner_a())), 2);
    assert_eq!(store.store_password(record("c", 3, owner_b())), 3);
}

#[test]
fn update_by_owner_changes_value_and_timestamp() {
    let mut store = PasswordStore::new();
    let id = store.store_password(record("OldValue1!", 10, owner_a()));
    let r = store.update_password(id, PasswordPayload::new(String::from("NewValue2?")), 20, &owner_a());
    assert!(r.is_ok());
    let got = store.get_password(id).unwrap();
    assert_eq!(got.value, "NewValue2?");
    assert_eq!(got.created_at, 20);
    assert_eq!(got.owner.bytes, vec![1, 2, 3]);
}

#[test]
fn update_by_non_owner_fails_and_leaves_record() {
    let mut store = PasswordStore::new();
    let id = store.store_password(record("OldValue1!", 10, owner_a()));
    let r = store.update_password(id, PasswordPayload::new(String::from("NewValue2?")), 20, &owner_b());
    assert_eq!(r.unwrap_err(), Error::Unauthorized);
    let got = store.get_password(id).unwrap();
    assert_eq!(got.value, "OldValue1!");
    assert_eq!(got.created_at, 10);
}

#[test]
fn update_absent_id_fails_not_found() {
    let mut store = PasswordStore::new();
    let r = store.update_password(7, PasswordPayload::new(String::from("x")), 1, &owner_a());
    assert_eq!(r.unwrap_err(), Error::NotFound);
}

#[test]
fn delete_by_owner_removes_record() {
    let mut store = PasswordStore::new();
    let id = store.store_password(record("Secret99!", 5, owner_a()));
    assert!(store.delete_password(id, &owner_a()).is_ok());
    assert_eq!(store.get_password(id).unwrap_err(), Error::NotFound);
}

#[test]
fn delete_by_non_owner_fails_and_record_remains() {
    let mut store = PasswordStore::new();
    let id = store.store_password(record("Secret99!", 5, owner_a()));
    assert_eq!(store.delete_password(id, &owner_b()).unwrap_err(), Error::Unauthorized);
    let got = store.get_password(id).unwrap();
    assert_eq!(got.value, "Secret99!");
}

#[test]
fn delete_absent_id_fails_not_found() {
    let mut store = PasswordStore::new();
    assert_eq!(store.delete_password(1, &owner_a()).unwrap_err(), Error::NotFound);
}

#[test]
fn deleted_ids_are_never_reused() {
    let mut store = PasswordStore::new();
    let id1 = store.store_password(record("a", 1, owner_a()));
    let id2 = store.store_password(record("b", 2, owner_a()));
    assert!(store.delete_password(id1, &owner_a()).is_ok());
    let id3 = store.store_password(record("c", 3, owner_a()));
    assert!(id3 > id2);
    assert_ne!(id3, id1);
    assert_eq!(store.get_password(id1).unwrap_err(), Error::NotFound);
    assert_eq!(store.get_password(id3).unwrap().value, "c");
}

#[test]
fn list_returns_all_records_in_insertion_order() {
    let mut store = PasswordStore::new();
    assert!(store.list_passwords().is_empty());
    store.store_password(record("first", 1, owner_a()));
    store.store_password(record("second", 2, owner_b()));
    store.store_password(record("third", 3, owner_a()));
    let all = store.list_passwords();
    assert_eq!(all.len(), 3);
    assert_eq!(all[0].value, "first");
    assert_eq!(all[1].value, "second");
    assert_eq!(all[2].value, "third");
    assert_eq!(all[1].owner.bytes, vec![9, 9]);
}

#[test]
fn uniqueness_true_on_empty_store() {
    let store = PasswordStore::new();
    assert!(store.check_password_uniqueness(&PasswordPayload::new(String::from("anything"))));
}

#[test]
fn uniqueness_false_exactly_on_matching_value() {
    let mut store = PasswordStore::new();
    store.store_password(record("TakenValue1!", 1, owner_a()));
    assert!(!store.check_password_uniqueness(&PasswordPayload::new(String::from("TakenValue1!"))));
    assert!(store.check_password_uniqueness(&PasswordPayload::new(String::from("FreeValue1!"))));
}

#[test]
fn uniqueness_true_again_after_delete() {
    let mut store = PasswordStore::new();
    let id = store.store_password(record("TakenValue1!", 1, owner_a()));
    assert!(store.delete_password(id, &owner_a()).is_ok());
    assert!(store.check_password_uniqueness(&PasswordPayload::new(String::from("TakenValue1!"))));
}

#[test]
fn principal_matches_compares_bytes() {
    assert!(owner_a().matches(&owner_a()));
    assert!(!owner_a().matches(&owner_b()));
    assert!(!Principal::new(vec![1, 2]).matches(&Principal::new(vec![1, 2, 3])));
    assert!(Principal::new(vec![]).matches(&Principal::new(vec![])));
}
