use relay_chat::codec::{Username, USER_DATA_BYTES};
use relay_chat::error::ChatError;
use relay_chat::session::SessionTable;

fn payload(name: &str) -> [u8; USER_DATA_BYTES] {
    Username(name.to_string()).to_netcode_user_data().unwrap()
}

fn broken_payload() -> [u8; USER_DATA_BYTES] {
    let mut bytes = [0u8; USER_DATA_BYTES];
    bytes[0] = 1;
    bytes[8] = 0xff;
    bytes
}

#[test]
fn new_table_is_empty() {
    let table = SessionTable::new();
    assert_eq!(table.len(), 0);
    assert!(!table.contains(1));
    assert_eq!(table.lookup(1), Err(ChatError::UnknownClient));
}

#[test]
fn connect_registers_and_returns_the_name() {
    let mut table = SessionTable::new();
    assert_eq!(table.on_connect(7, &payload("alice")), Ok("alice".to_string()));
    assert_eq!(table.len(), 1);
    assert!(table.contains(7));
    assert_eq!(table.lookup(7), Ok(&"alice".to_string()));
}

#[test]
fn connect_with_broken_payload_registers_nothing() {
    let mut table = SessionTable::new();
    assert_eq!(table.on_connect(7, &broken_payload()), Err(ChatError::InvalidEncoding));
    assert_eq!(table.len(), 0);
    assert_eq!(table.lookup(7), Err(ChatError::UnknownClient));
}

#[test]
fn broken_payload_leaves_an_earlier_session_alone() {
    let mut table = SessionTable::new();
    table.on_connect(7, &payload("alice")).unwrap();
    assert_eq!(table.on_connect(7, &broken_payload()), Err(ChatError::InvalidEncoding));
    assert_eq!(table.lookup(7), Ok(&"alice".to_string()));
}

#[test]
fn connect_again_replaces_the_name() {
    let mut table = SessionTable::new();
    table.on_connect(7, &payload("alice")).unwrap();
    assert_eq!(table.on_connect(7, &payload("alicia")), Ok("alicia".to_string()));
    assert_eq!(table.len(), 1);
    assert_eq!(table.lookup(7), Ok(&"alicia".to_string()));
}

#[test]
fn disconnect_removes_and_returns_the_name() {
    let mut table = SessionTable::new();
    table.on_connect(1, &payload("alice")).unwrap();
    table.on_connect(2, &payload("bob")).unwrap();
    assert_eq!(table.on_disconnect(2), Some("bob".to_string()));
    assert_eq!(table.len(), 1);
    assert!(table.contains(1));
    assert!(!table.contains(2));
}

#[test]
fn lookup_after_disconnect_is_unknown_client() {
    let mut table = SessionTable::new();
    table.on_connect(2, &payload("bob")).unwrap();
    table.on_disconnect(2);
    assert_eq!(table.lookup(2), Err(ChatError::UnknownClient));
}

#[test]
fn disconnect_of_a_stranger_is_absent() {
    let mut table = SessionTable::new();
    table.on_connect(1, &payload("alice")).unwrap();
    assert_eq!(table.on_disconnect(99), None);
    assert_eq!(table.len(), 1);
    assert_eq!(table.lookup(1), Ok(&"alice".to_string()));
}

#[test]
fn disconnect_twice_is_absent_the_second_time() {
    let mut table = SessionTable::new();
    table.on_connect(1, &payload("alice")).unwrap();
    assert_eq!(table.on_disconnect(1), Some("alice".to_string()));
    assert_eq!(table.on_disconnect(1), None);
    assert_eq!(table.len(), 0);
}

#[test]
fn keys_follow_connects_and_disconnects() {
    let mut table = SessionTable::new();
    table.on_connect(1, &payload("a")).unwrap();
    table.on_connect(2, &payload("b")).unwrap();
    table.on_connect(3, &payload("c")).unwrap();
    table.on_disconnect(2);
    table.on_connect(4, &payload("d")).unwrap();
    table.on_disconnect(1);
    table.on_connect(2, &payload("b2")).unwrap();
    for id in 0..6u64 {
        assert_eq!(table.contains(id), id == 2 || id == 3 || id == 4);
    }
    assert_eq!(table.len(), 3);
}

#[test]
fn two_clients_may_share_a_name() {
    let mut table = SessionTable::new();
    table.on_connect(1, &payload("sam")).unwrap();
    table.on_connect(2, &payload("sam")).unwrap();
    assert_eq!(table.len(), 2);
    assert_eq!(table.on_disconnect(1), Some("sam".to_string()));
    assert_eq!(table.lookup(2), Ok(&"sam".to_string()));
}
