use session_manager::manager::DeepClone;
use session_manager::manager::SessionManage;
use session_manager::manager::SessionUserData;
use session_manager::store::MemoryStore;
use session_manager::store::StoreError;

fn record(name: &str, mail: &str) -> SessionUserData {
    SessionUserData { name: name.to_string(), mail: mail.to_string() }
}

#[test]
fn identifiers_are_sequential() {
    let mut store: MemoryStore<SessionUserData> = MemoryStore::new();
    let first = store.add_session(record("test-name", "test-gmail")).unwrap();
    let second = store.add_session(record("other-name", "other-mail")).unwrap();
    assert_eq!(first, "S1");
    assert_eq!(second, "S2");
    assert_eq!(store.len(), 2);
}

#[test]
fn create_then_verify_round_trip() {
    let mut store: MemoryStore<SessionUserData> = MemoryStore::new();
    let id = store.add_session(record("test-name", "test-gmail")).unwrap();
    let found = store.verify_session(&id).unwrap().unwrap();
    assert_eq!(found.name, "test-name");
    assert_eq!(found.mail, "test-gmail");
}

#[test]
fn verify_unknown_identifier_is_absence() {
    let store: MemoryStore<SessionUserData> = MemoryStore::new();
    let found = store.verify_session("S1").unwrap();
    assert!(found.is_none());
}

#[test]
fn delete_is_idempotent() {
    let mut store: MemoryStore<SessionUserData> = MemoryStore::new();
    let id = store.add_session(record("test-name", "test-gmail")).unwrap();
    assert!(store.delete_session(&id).is_ok());
    assert!(store.verify_session(&id).unwrap().is_none());
    assert!(store.delete_session(&id).is_ok());
    assert!(store.verify_session(&id).unwrap().is_none());
}

#[test]
fn delete_leaves_other_records_alone() {
    let mut store: MemoryStore<SessionUserData> = MemoryStore::new();
    let first = store.add_session(record("test-name", "test-gmail")).unwrap();
    let second = store.add_session(record("other-name", "other-mail")).unwrap();
    store.delete_session(&first).unwrap();
    assert!(store.verify_session(&first).unwrap().is_none());
    let kept = store.verify_session(&second).unwrap().unwrap();
    assert_eq!(kept.name, "other-name");
    assert_eq!(store.len(), 1);
}

#[test]
fn exhausted_counter_reports_error() {
    let mut store: MemoryStore<SessionUserData> = MemoryStore::numbered_from(u64::MAX);
    let r = store.add_session(record("test-name", "test-gmail"));
    assert_eq!(r.unwrap_err(), StoreError::IdentifiersExhausted);
}

#[test]
fn numbered_store_continues_from_its_counter() {
    let mut store: MemoryStore<SessionUserData> = MemoryStore::numbered_from(41);
    let id = store.add_session(record("test-name", "test-gmail")).unwrap();
    assert_eq!(id, "S41");
}

#[test]
fn deep_clone_copies_the_record() {
    let original = record("test-name", "test-gmail");
    let copy = original.deep_clone();
    assert_eq!(copy.name, original.name);
    assert_eq!(copy.mail, original.mail);
    let s = String::from("S1");
    assert_eq!(s.deep_clone(), s);
}
