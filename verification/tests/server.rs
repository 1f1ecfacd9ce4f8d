use secretd::connection::{Action, Connection, Event};
use secretd::prompt::xpassword;
use secretd::protocol::{Request, Response};
use secretd::server::{handle_request, handle_request_at, REAPER_INTERVAL_SECS};
use secretd::store::{SecretStore, TICKS_PER_SECOND};

fn unlocked_store() -> SecretStore {
    let mut store = SecretStore::new("hunter2", 300);
    assert!(store.unlock("hunter2"));
    store
}

fn put(key: &str, value: &str) -> Request {
    Request::Put { key: key.to_string(), value: value.to_string() }
}

fn get(key: &str) -> Request {
    Request::Get { key: key.to_string() }
}

fn unlock(password: &str) -> Request {
    Request::Unlock { password: password.to_string() }
}

#[test]
fn unlock_with_right_password_succeeds() {
    let mut store = SecretStore::new("hunter2", 300);
    assert_eq!(handle_request_at(unlock("hunter2"), &mut store, 0), Response::Success(None));
    assert!(store.is_unlocked());
}

#[test]
fn unlock_with_wrong_password_is_an_error() {
    let mut store = SecretStore::new("hunter2", 300);
    assert_eq!(
        handle_request_at(unlock("wrong"), &mut store, 0),
        Response::Error("invalid password".to_string())
    );
    assert!(!store.is_unlocked());
}

#[test]
fn put_and_get_need_an_unlocked_store() {
    let mut store = SecretStore::new("hunter2", 300);
    assert_eq!(
        handle_request_at(put("db", "pw1"), &mut store, 0),
        Response::Error("unauthorized".to_string())
    );
    assert_eq!(
        handle_request_at(get("db"), &mut store, 0),
        Response::Error("unauthorized".to_string())
    );
    assert!(!store.contains_key("db"));
}

#[test]
fn put_then_get_yields_the_value() {
    let mut store = unlocked_store();
    assert_eq!(handle_request_at(put("db", "pw1"), &mut store, 0), Response::Success(None));
    assert_eq!(
        handle_request_at(get("db"), &mut store, 1),
        Response::Success(Some("pw1".to_string()))
    );
}

#[test]
fn get_of_missing_or_expired_key_succeeds_with_nothing() {
    let mut store = unlocked_store();
    assert_eq!(handle_request_at(get("db"), &mut store, 0), Response::Success(None));
    handle_request_at(put("db", "pw1"), &mut store, 0);
    assert_eq!(
        handle_request_at(get("db"), &mut store, 300 * TICKS_PER_SECOND),
        Response::Success(None)
    );
    assert!(!store.contains_key("db"));
}

#[test]
fn lock_request_always_succeeds() {
    let mut store = SecretStore::new("hunter2", 300);
    assert_eq!(handle_request_at(Request::Lock, &mut store, 0), Response::Success(None));
    let mut store = unlocked_store();
    handle_request_at(put("db", "pw1"), &mut store, 0);
    assert_eq!(handle_request_at(Request::Lock, &mut store, 0), Response::Success(None));
    assert!(!store.is_unlocked());
    assert!(store.contains_key("db"));
    assert_eq!(
        handle_request_at(get("db"), &mut store, 0),
        Response::Error("unauthorized".to_string())
    );
}

#[test]
fn whole_session() {
    let mut store = SecretStore::new("hunter2", 300);
    let ttl = 300 * TICKS_PER_SECOND;
    assert_eq!(
        handle_request_at(put("db", "pw1"), &mut store, 0),
        Response::Error("unauthorized".to_string())
    );
    assert_eq!(
        handle_request_at(unlock("wrong"), &mut store, 1),
        Response::Error("invalid password".to_string())
    );
    assert_eq!(handle_request_at(unlock("hunter2"), &mut store, 2), Response::Success(None));
    assert_eq!(handle_request_at(put("db", "pw1"), &mut store, 3), Response::Success(None));
    assert_eq!(
        handle_request_at(get("db"), &mut store, 3),
        Response::Success(Some("pw1".to_string()))
    );
    assert_eq!(handle_request_at(Request::Lock, &mut store, 4), Response::Success(None));
    assert_eq!(
        handle_request_at(get("db"), &mut store, 5),
        Response::Error("unauthorized".to_string())
    );
    assert_eq!(handle_request_at(unlock("hunter2"), &mut store, 6), Response::Success(None));
    assert_eq!(handle_request_at(get("db"), &mut store, 3 + ttl), Response::Success(None));
    assert!(!store.contains_key("db"));
}

#[test]
fn requests_on_the_store_clock() {
    let mut store = SecretStore::new("hunter2", 300);
    assert_eq!(handle_request(unlock("hunter2"), &mut store), Response::Success(None));
    assert_eq!(handle_request(put("db", "pw1"), &mut store), Response::Success(None));
    assert_eq!(handle_request(get("db"), &mut store), Response::Success(Some("pw1".to_string())));
    assert_eq!(handle_request(Request::Lock, &mut store), Response::Success(None));
    assert_eq!(
        handle_request(get("db"), &mut store),
        Response::Error("unauthorized".to_string())
    );
}

#[test]
fn reaper_runs_every_five_seconds() {
    assert_eq!(REAPER_INTERVAL_SECS, 5);
}

#[test]
fn new_connection_reads() {
    let connection = Connection::new();
    assert_eq!(connection.pending(), Action::Read);
    assert_eq!(connection.outgoing(), None);
}

#[test]
fn connection_answers_one_request() {
    let mut store = unlocked_store();
    store.set_at("db".to_string(), "pw1".to_string(), 0).unwrap();
    let bytes = get("db").encode();
    let connection = Connection::new();
    let connection = connection.on_event(Event::Received(bytes[..5].to_vec()));
    assert_eq!(connection.pending(), Action::Read);
    let connection = connection.on_event(Event::Received(bytes[5..].to_vec()));
    assert_eq!(connection.pending(), Action::Read);
    let connection = connection.on_event(Event::EndOfInput);
    assert_eq!(connection.pending(), Action::Dispatch);
    assert_eq!(connection.outgoing(), None);
    let connection = connection.dispatch_at(&mut store, 1);
    assert_eq!(connection.pending(), Action::Write);
    assert_eq!(
        connection.outgoing(),
        Some(&Response::Success(Some("pw1".to_string())).encode())
    );
    let connection = connection.on_event(Event::Written);
    assert_eq!(connection.pending(), Action::Close);
    assert_eq!(connection.outgoing(), None);
}

#[test]
fn connection_reports_locked_store_as_a_response() {
    let mut store = SecretStore::new("hunter2", 300);
    let connection = Connection::new()
        .on_event(Event::Received(put("db", "pw1").encode()))
        .on_event(Event::EndOfInput)
        .dispatch(&mut store);
    assert_eq!(
        connection.outgoing(),
        Some(&Response::Error("unauthorized".to_string()).encode())
    );
}

#[test]
fn garbage_closes_the_connection_unanswered() {
    let connection = Connection::new()
        .on_event(Event::Received(vec![0xde, 0xad, 0xbe, 0xef, 1, 2, 3]))
        .on_event(Event::EndOfInput);
    assert_eq!(connection.pending(), Action::Close);
    assert_eq!(connection.outgoing(), None);
}

#[test]
fn truncated_request_closes_the_connection_unanswered() {
    let bytes = put("db", "pw1").encode();
    let connection = Connection::new()
        .on_event(Event::Received(bytes[..bytes.len() - 1].to_vec()))
        .on_event(Event::EndOfInput);
    assert_eq!(connection.pending(), Action::Close);
    assert_eq!(connection.outgoing(), None);
}

#[test]
fn silent_peer_closes_the_connection_unanswered() {
    let connection = Connection::new().on_event(Event::EndOfInput);
    assert_eq!(connection.pending(), Action::Close);
}

#[test]
fn read_failure_closes_the_connection() {
    let connection = Connection::new()
        .on_event(Event::Received(Request::Lock.encode()))
        .on_event(Event::Failed);
    assert_eq!(connection.pending(), Action::Close);
}

#[test]
fn write_failure_closes_the_connection() {
    let mut store = unlocked_store();
    let connection = Connection::new()
        .on_event(Event::Received(Request::Lock.encode()))
        .on_event(Event::EndOfInput)
        .dispatch_at(&mut store, 0)
        .on_event(Event::Failed);
    assert_eq!(connection.pending(), Action::Close);
    assert_eq!(connection.outgoing(), None);
    assert!(!store.is_unlocked());
}

#[test]
fn unexpected_events_close_the_connection() {
    let connection = Connection::new().on_event(Event::Written);
    assert_eq!(connection.pending(), Action::Close);
    let connection = Connection::new()
        .on_event(Event::Received(Request::Lock.encode()))
        .on_event(Event::EndOfInput)
        .on_event(Event::Received(vec![1]));
    assert_eq!(connection.pending(), Action::Close);
}

#[test]
fn closed_connection_stays_closed() {
    let mut store = unlocked_store();
    let connection = Connection::new().on_event(Event::Failed);
    let connection = connection.on_event(Event::Received(Request::Lock.encode()));
    let connection = connection.on_event(Event::EndOfInput);
    let connection = connection.dispatch_at(&mut store, 0);
    assert_eq!(connection.pending(), Action::Close);
    assert!(store.is_unlocked());
}

#[test]
fn dispatch_without_a_request_changes_nothing() {
    let mut store = unlocked_store();
    let connection = Connection::new().dispatch_at(&mut store, 0);
    assert_eq!(connection.pending(), Action::Read);
    assert!(store.is_unlocked());
}

#[test]
fn trailing_bytes_after_a_request_are_ignored() {
    let mut store = SecretStore::new("hunter2", 300);
    let mut bytes = unlock("hunter2").encode();
    bytes.extend_from_slice(&[0; 16]);
    let connection = Connection::new()
        .on_event(Event::Received(bytes))
        .on_event(Event::EndOfInput)
        .dispatch_at(&mut store, 0);
    assert_eq!(connection.outgoing(), Some(&Response::Success(None).encode()));
    assert!(store.is_unlocked());
}

#[test]
fn prompt_yields_what_was_entered() {
    let entered: Result<String, std::io::Error> = Ok("hunter2".to_string());
    assert_eq!(xpassword(entered), "hunter2");
}
