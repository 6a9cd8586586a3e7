use std::marker::PhantomData;

use session_manager::manager::SessionManage;
use session_manager::manager::SessionUserData;
use session_manager::service::classify;
use session_manager::service::token_from_header;
use session_manager::service::SessionRequest;
use session_manager::store::MemoryStore;
use session_manager::store::StoreError;
use session_manager::SessionManagerLayer;
use session_manager::SessionManagerService;
use session_manager::UserState;

type Store = MemoryStore<SessionUserData>;

fn record(name: &str, mail: &str) -> SessionUserData {
    SessionUserData { name: name.to_string(), mail: mail.to_string() }
}

fn service_over(store: Store) -> SessionManagerService<'static, (), Store, SessionUserData> {
    SessionManagerService::new((), store, "session-key", PhantomData)
}

#[test]
fn no_cookie() {
    let store: Store = MemoryStore::new();
    let service = service_over(store);
    let outcome = service.handle(None);
    assert!(matches!(outcome.0, UserState::NoCookie));
    let outcome = service.handle(Some("other-key=abc"));
    assert!(matches!(outcome.0, UserState::NoCookie));
}

#[test]
fn have_session() {
    let mut store: Store = MemoryStore::new();
    let id = store.add_session(record("test-name", "test-gmail")).unwrap();
    let service = service_over(store);
    let header = format!("session-key={id}");
    let outcome = service.handle(Some(&header));
    match outcome.0 {
        UserState::HaveSession(data) => {
            assert_eq!(data.name, "test-name");
            assert_eq!(data.mail, "test-gmail");
        }
        _ => panic!("expected a resolved session"),
    }
}

#[test]
fn no_session() {
    let mut store: Store = MemoryStore::new();
    let id = store.add_session(record("test-name", "test-gmail")).unwrap();
    store.delete_session(&id).unwrap();
    let service = service_over(store);
    let header = format!("session-key={id}");
    let outcome = service.handle(Some(&header));
    assert!(matches!(outcome.0, UserState::NoSession));
}

#[test]
fn unknown_token_is_no_session() {
    let store: Store = MemoryStore::new();
    let service = service_over(store);
    let outcome = service.handle(Some("session-key=S7"));
    assert!(matches!(outcome.0, UserState::NoSession));
}

#[test]
fn token_is_found_among_other_cookies() {
    let token = token_from_header(Some("first=a; session-key=S1; last=b"), "session-key");
    assert_eq!(token.as_deref(), Some("S1"));
    let token = token_from_header(Some("first=a; last=b"), "session-key");
    assert!(token.is_none());
    let token = token_from_header(None, "session-key");
    assert!(token.is_none());
}

#[test]
fn classify_covers_every_lookup_result() {
    let have = classify::<u64, StoreError>(Some(Ok(Some(7))));
    assert!(matches!(have, UserState::HaveSession(7)));
    let absent = classify::<u64, StoreError>(Some(Ok(None)));
    assert!(matches!(absent, UserState::NoSession));
    let failed = classify::<u64, StoreError>(Some(Err(StoreError::IdentifiersExhausted)));
    assert!(matches!(failed, UserState::NoSession));
    let no_lookup = classify::<u64, StoreError>(None);
    assert!(matches!(no_lookup, UserState::NoCookie));
}

#[test]
fn layer_configures_the_service() {
    let mut store: Store = MemoryStore::new();
    let id = store.add_session(record("test-name", "test-gmail")).unwrap();
    let layer = SessionManagerLayer::new(store, "session-key", PhantomData);
    let service = layer.layer(());
    let header = format!("session-key={id}");
    let outcome = service.handle(Some(&header));
    assert!(matches!(outcome.0, UserState::HaveSession(_)));
}

#[test]
fn process_attaches_exactly_one_outcome() {
    let mut store: Store = MemoryStore::new();
    let id = store.add_session(record("test-name", "test-gmail")).unwrap();
    let service = service_over(store);
    let mut request = SessionRequest::new(Some(format!("session-key={id}")));
    assert!(request.outcome().is_none());
    service.process(&mut request);
    match request.outcome() {
        Some(attached) => assert!(matches!(attached.0, UserState::HaveSession(_))),
        None => panic!("an outcome must be attached"),
    }
}

#[test]
fn forwarding_returns_the_downstream_response_unmodified() {
    let store: Store = MemoryStore::new();
    let service = service_over(store);
    let request = SessionRequest::new(None);
    let response = service.process_and_forward(request, |annotated| {
        match annotated.outcome() {
            Some(attached) => assert!(matches!(attached.0, UserState::NoCookie)),
            None => panic!("the request must arrive annotated"),
        }
        "downstream-response"
    });
    assert_eq!(response, "downstream-response");
}

#[test]
fn full_session_lifecycle() {
    let mut store: Store = MemoryStore::new();
    let id = store.add_session(record("alice", "alice-mail")).unwrap();
    assert_eq!(id, "S1");
    let found = store.verify_session("S1").unwrap().unwrap();
    assert_eq!(found.name, "alice");
    let service = service_over(store);
    assert!(matches!(service.handle(None).0, UserState::NoCookie));
    match service.handle(Some("session-key=S1")).0 {
        UserState::HaveSession(data) => assert_eq!(data.name, "alice"),
        _ => panic!("expected a resolved session"),
    }
    let mut store: Store = MemoryStore::new();
    store.add_session(record("alice", "alice-mail")).unwrap();
    store.delete_session("S1").unwrap();
    let service = service_over(store);
    assert!(matches!(service.handle(Some("session-key=S1")).0, UserState::NoSession));
}
