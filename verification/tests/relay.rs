use relay_chat::codec::{Username, USER_DATA_BYTES};
use relay_chat::error::ChatError;
use relay_chat::relay::{relay_message, Outgoing, Relay};
use relay_chat::session::SessionTable;
use relay_chat::transport::Lifecycle;
use renet::{ClientId, ConnectionConfig, DefaultChannel, RenetClient};

fn payload(name: &str) -> [u8; USER_DATA_BYTES] {
    Username(name.to_string()).to_netcode_user_data().unwrap()
}

fn broken_payload() -> [u8; USER_DATA_BYTES] {
    let mut bytes = [0u8; USER_DATA_BYTES];
    bytes[0] = 2;
    bytes[8] = 0xff;
    bytes[9] = 0xff;
    bytes
}

fn line(except: u64, text: &str) -> Outgoing {
    Outgoing { except, text: text.to_string() }
}

/// The far end of a connection: what the client with this identifier holds.
fn peer() -> RenetClient {
    let mut client = RenetClient::new(ConnectionConfig::default());
    client.set_connected();
    client
}

/// Lets the transport report a new connection and works the event off.
fn join(relay: &mut Relay, id: u64, user_data: [u8; USER_DATA_BYTES]) -> Option<Outgoing> {
    relay.server.add_connection(ClientId::from_raw(id));
    let events = relay.take_events();
    assert_eq!(events, vec![Lifecycle::Connected(id)]);
    relay.handle_event(events[0], Some(user_data))
}

/// Lets the transport report that a connection is gone and works the event off.
fn leave(relay: &mut Relay, id: u64) -> Option<Outgoing> {
    relay.server.remove_connection(ClientId::from_raw(id));
    let events = relay.take_events();
    assert_eq!(events, vec![Lifecycle::Disconnected(id)]);
    relay.handle_event(events[0], None)
}

/// Carries the packets of `peer` to the server, as the transport would.
fn carry_up(relay: &mut Relay, id: u64, peer: &mut RenetClient) {
    for packet in peer.get_packets_to_send() {
        relay.server.process_packet_from(&packet, ClientId::from_raw(id)).unwrap();
    }
}

/// Sends `message` from `peer` and carries it to the server.
fn say(relay: &mut Relay, id: u64, peer: &mut RenetClient, message: &[u8]) {
    peer.send_message(DefaultChannel::ReliableOrdered, message.to_vec());
    carry_up(relay, id, peer);
}

/// Carries the server's packets to `peer` and returns every text that arrived.
fn heard(relay: &mut Relay, id: u64, peer: &mut RenetClient) -> Vec<String> {
    for packet in relay.server.get_packets_to_send(ClientId::from_raw(id)).unwrap() {
        peer.process_packet(&packet);
    }
    let mut texts = Vec::new();
    while let Some(message) = peer.receive_message(DefaultChannel::ReliableOrdered) {
        texts.push(String::from_utf8(message.to_vec()).unwrap());
    }
    texts
}

fn from(lines: &[Outgoing], sender: u64) -> Vec<String> {
    lines.iter().filter(|l| l.except == sender).map(|l| l.text.clone()).collect()
}

#[test]
fn new_relay_has_nothing() {
    let mut relay = Relay::new();
    assert_eq!(relay.sessions.len(), 0);
    assert_eq!(relay.take_events(), vec![]);
    assert_eq!(relay.server.clients_id(), vec![]);
    assert_eq!(relay.relay_waiting(), vec![]);
}

#[test]
fn take_events_keeps_the_order_and_empties_the_queue() {
    let mut relay = Relay::new();
    relay.server.add_connection(ClientId::from_raw(5));
    relay.server.add_connection(ClientId::from_raw(3));
    relay.server.remove_connection(ClientId::from_raw(5));
    relay.server.add_connection(ClientId::from_raw(9));
    assert_eq!(
        relay.take_events(),
        vec![
            Lifecycle::Connected(5),
            Lifecycle::Connected(3),
            Lifecycle::Disconnected(5),
            Lifecycle::Connected(9),
        ]
    );
    assert_eq!(relay.take_events(), vec![]);
    assert_eq!(relay.server.get_event(), None);
}

#[test]
fn connect_registers_and_announces_to_the_others() {
    let mut relay = Relay::new();
    let mut alice = peer();
    assert_eq!(join(&mut relay, 1, payload("alice")), Some(line(1, "User \"alice\" connected")));
    assert_eq!(relay.sessions.lookup(1), Ok(&"alice".to_string()));
    assert_eq!(join(&mut relay, 2, payload("bob")), Some(line(2, "User \"bob\" connected")));
    let mut bob = peer();
    assert_eq!(heard(&mut relay, 1, &mut alice), vec!["User \"bob\" connected"]);
    assert_eq!(heard(&mut relay, 2, &mut bob), Vec::<String>::new());
}

#[test]
fn connect_without_user_data_gets_no_session() {
    let mut relay = Relay::new();
    join(&mut relay, 1, payload("alice"));
    let mut alice = peer();
    relay.server.add_connection(ClientId::from_raw(2));
    let events = relay.take_events();
    assert_eq!(relay.handle_event(events[0], None), None);
    assert!(!relay.sessions.contains(2));
    assert_eq!(heard(&mut relay, 1, &mut alice), Vec::<String>::new());
}

#[test]
fn connect_with_broken_user_data_gets_no_session() {
    let mut relay = Relay::new();
    join(&mut relay, 1, payload("alice"));
    let mut alice = peer();
    assert_eq!(join(&mut relay, 2, broken_payload()), None);
    assert!(!relay.sessions.contains(2));
    assert_eq!(relay.sessions.len(), 1);
    assert_eq!(heard(&mut relay, 1, &mut alice), Vec::<String>::new());
}

#[test]
fn messages_of_a_client_without_session_are_dropped() {
    let mut relay = Relay::new();
    join(&mut relay, 1, payload("alice"));
    let mut alice = peer();
    join(&mut relay, 2, broken_payload());
    let mut nameless = peer();
    say(&mut relay, 2, &mut nameless, b"anyone?");
    assert_eq!(relay.relay_waiting(), vec![]);
    assert_eq!(heard(&mut relay, 1, &mut alice), Vec::<String>::new());
    // the relay goes on
    say(&mut relay, 1, &mut alice, b"hello");
    assert_eq!(relay.relay_waiting(), vec![line(1, "alice: hello")]);
    assert_eq!(heard(&mut relay, 2, &mut nameless), vec!["alice: hello"]);
}

#[test]
fn disconnect_announces_to_those_who_remain() {
    let mut relay = Relay::new();
    join(&mut relay, 1, payload("alice"));
    join(&mut relay, 2, payload("bob"));
    let mut alice = peer();
    assert_eq!(heard(&mut relay, 1, &mut alice), vec!["User \"bob\" connected"]);
    assert_eq!(leave(&mut relay, 2), Some(line(2, "User \"bob\" disconnected")));
    assert_eq!(relay.sessions.lookup(2), Err(ChatError::UnknownClient));
    assert_eq!(heard(&mut relay, 1, &mut alice), vec!["User \"bob\" disconnected"]);
}

#[test]
fn disconnect_of_a_stranger_is_silent() {
    let mut relay = Relay::new();
    join(&mut relay, 1, payload("alice"));
    let mut alice = peer();
    assert_eq!(relay.handle_event(Lifecycle::Disconnected(42), None), None);
    assert_eq!(relay.sessions.len(), 1);
    assert_eq!(heard(&mut relay, 1, &mut alice), Vec::<String>::new());
}

#[test]
fn disconnect_event_still_listed_as_destination_does_not_fail() {
    // The event arrives while the server still holds the connection.
    let mut relay = Relay::new();
    join(&mut relay, 1, payload("alice"));
    join(&mut relay, 2, payload("bob"));
    let mut alice = peer();
    let mut bob = peer();
    heard(&mut relay, 1, &mut alice);
    assert_eq!(
        relay.handle_event(Lifecycle::Disconnected(2), None),
        Some(line(2, "User \"bob\" disconnected"))
    );
    assert_eq!(heard(&mut relay, 1, &mut alice), vec!["User \"bob\" disconnected"]);
    assert_eq!(heard(&mut relay, 2, &mut bob), Vec::<String>::new());
}

#[test]
fn nothing_is_broadcast_to_a_client_that_left() {
    let mut relay = Relay::new();
    join(&mut relay, 1, payload("alice"));
    join(&mut relay, 2, payload("bob"));
    let mut alice = peer();
    leave(&mut relay, 2);
    assert_eq!(relay.sessions.lookup(2), Err(ChatError::UnknownClient));
    say(&mut relay, 1, &mut alice, b"still there?");
    assert_eq!(relay.relay_waiting(), vec![line(1, "alice: still there?")]);
    assert!(relay.server.get_packets_to_send(ClientId::from_raw(2)).is_err());
    assert_eq!(relay.server.clients_id(), vec![ClientId::from_raw(1)]);
}

#[test]
fn broadcast_reaches_everyone_but_the_sender() {
    let mut relay = Relay::new();
    join(&mut relay, 1, payload("A"));
    join(&mut relay, 2, payload("B"));
    join(&mut relay, 3, payload("C"));
    let (mut a, mut b, mut c) = (peer(), peer(), peer());
    heard(&mut relay, 1, &mut a);
    heard(&mut relay, 2, &mut b);
    heard(&mut relay, 3, &mut c);

    say(&mut relay, 1, &mut a, b"hi");
    assert_eq!(relay.relay_waiting(), vec![line(1, "A: hi")]);

    assert_eq!(heard(&mut relay, 1, &mut a), Vec::<String>::new());
    assert_eq!(heard(&mut relay, 2, &mut b), vec!["A: hi"]);
    assert_eq!(heard(&mut relay, 3, &mut c), vec!["A: hi"]);
    // and no second copy later
    assert_eq!(relay.relay_waiting(), vec![]);
    assert_eq!(heard(&mut relay, 2, &mut b), Vec::<String>::new());
    assert_eq!(heard(&mut relay, 3, &mut c), Vec::<String>::new());
}

#[test]
fn one_broadcast_call_excepts_only_its_sender() {
    let mut relay = Relay::new();
    join(&mut relay, 1, payload("A"));
    join(&mut relay, 2, payload("B"));
    let (mut a, mut b) = (peer(), peer());
    heard(&mut relay, 1, &mut a);
    relay.broadcast(&line(2, "to all but two"));
    relay.broadcast(&line(77, "to all"));
    assert_eq!(heard(&mut relay, 1, &mut a), vec!["to all but two", "to all"]);
    assert_eq!(heard(&mut relay, 2, &mut b), vec!["to all"]);
}

#[test]
fn broadcast_all_keeps_the_order_of_the_lines() {
    let mut relay = Relay::new();
    join(&mut relay, 1, payload("A"));
    join(&mut relay, 2, payload("B"));
    let (mut a, mut b) = (peer(), peer());
    heard(&mut relay, 1, &mut a);
    relay.broadcast_all(&vec![line(1, "first"), line(2, "second"), line(1, "third")]);
    assert_eq!(heard(&mut relay, 1, &mut a), vec!["second"]);
    assert_eq!(heard(&mut relay, 2, &mut b), vec!["first", "third"]);
}

#[test]
fn two_messages_arrive_in_the_order_sent_within_one_tick() {
    let mut relay = Relay::new();
    join(&mut relay, 1, payload("A"));
    join(&mut relay, 2, payload("B"));
    join(&mut relay, 3, payload("C"));
    let (mut a, mut b, mut c) = (peer(), peer(), peer());
    heard(&mut relay, 1, &mut a);
    heard(&mut relay, 2, &mut b);
    say(&mut relay, 1, &mut a, b"one");
    say(&mut relay, 1, &mut a, b"two");
    assert_eq!(relay.relay_waiting(), vec![line(1, "A: one"), line(1, "A: two")]);
    assert_eq!(heard(&mut relay, 2, &mut b), vec!["A: one", "A: two"]);
    assert_eq!(heard(&mut relay, 3, &mut c), vec!["A: one", "A: two"]);
    assert_eq!(heard(&mut relay, 1, &mut a), Vec::<String>::new());
}

#[test]
fn two_messages_arrive_in_the_order_sent_across_ticks() {
    let mut relay = Relay::new();
    join(&mut relay, 1, payload("A"));
    join(&mut relay, 2, payload("B"));
    let (mut a, mut b) = (peer(), peer());
    heard(&mut relay, 1, &mut a);
    say(&mut relay, 1, &mut a, b"one");
    assert_eq!(relay.relay_waiting(), vec![line(1, "A: one")]);
    say(&mut relay, 1, &mut a, b"two");
    assert_eq!(relay.relay_waiting(), vec![line(1, "A: two")]);
    assert_eq!(heard(&mut relay, 2, &mut b), vec!["A: one", "A: two"]);
}

#[test]
fn lines_of_each_sender_keep_their_order() {
    let mut relay = Relay::new();
    join(&mut relay, 1, payload("A"));
    join(&mut relay, 2, payload("B"));
    join(&mut relay, 3, payload("C"));
    let (mut a, mut b, mut c) = (peer(), peer(), peer());
    heard(&mut relay, 1, &mut a);
    heard(&mut relay, 2, &mut b);
    say(&mut relay, 1, &mut a, b"a1");
    say(&mut relay, 2, &mut b, b"b1");
    say(&mut relay, 1, &mut a, b"a2");
    say(&mut relay, 2, &mut b, b"b2");
    let lines = relay.relay_waiting();
    assert_eq!(lines.len(), 4);
    assert_eq!(from(&lines, 1), vec!["A: a1", "A: a2"]);
    assert_eq!(from(&lines, 2), vec!["B: b1", "B: b2"]);
    assert_eq!(from(&lines, 3), Vec::<String>::new());
    let at_c = heard(&mut relay, 3, &mut c);
    assert_eq!(at_c, lines.iter().map(|l| l.text.clone()).collect::<Vec<_>>());
    assert_eq!(heard(&mut relay, 1, &mut a), vec!["B: b1", "B: b2"]);
    assert_eq!(heard(&mut relay, 2, &mut b), vec!["A: a1", "A: a2"]);
}

#[test]
fn malformed_message_is_dropped_and_the_rest_relayed() {
    let mut relay = Relay::new();
    join(&mut relay, 1, payload("A"));
    join(&mut relay, 2, payload("B"));
    let (mut a, mut b) = (peer(), peer());
    heard(&mut relay, 1, &mut a);
    say(&mut relay, 1, &mut a, b"before");
    say(&mut relay, 1, &mut a, &[0xff, 0xfe]);
    say(&mut relay, 1, &mut a, b"after");
    assert_eq!(relay.relay_waiting(), vec![line(1, "A: before"), line(1, "A: after")]);
    assert_eq!(heard(&mut relay, 2, &mut b), vec!["A: before", "A: after"]);
}

#[test]
fn collect_from_drains_one_client_only() {
    let mut relay = Relay::new();
    join(&mut relay, 1, payload("A"));
    join(&mut relay, 2, payload("B"));
    let (mut a, mut b) = (peer(), peer());
    say(&mut relay, 1, &mut a, b"from a");
    say(&mut relay, 2, &mut b, b"from b");
    let mut out = vec![line(9, "kept")];
    relay.collect_from(2, &mut out);
    assert_eq!(out, vec![line(9, "kept"), line(2, "B: from b")]);
    relay.collect_from(2, &mut out);
    assert_eq!(out.len(), 2);
    relay.collect_from(55, &mut out);
    assert_eq!(out.len(), 2);
    assert_eq!(relay.collect_lines(), vec![line(1, "A: from a")]);
}

#[test]
fn collect_lines_does_not_broadcast() {
    let mut relay = Relay::new();
    join(&mut relay, 1, payload("A"));
    join(&mut relay, 2, payload("B"));
    let (mut a, mut b) = (peer(), peer());
    heard(&mut relay, 1, &mut a);
    say(&mut relay, 1, &mut a, b"hi");
    assert_eq!(relay.collect_lines(), vec![line(1, "A: hi")]);
    assert_eq!(heard(&mut relay, 2, &mut b), Vec::<String>::new());
    assert_eq!(relay.collect_lines(), vec![]);
}

#[test]
fn relay_message_formats_under_the_senders_name() {
    let mut sessions = SessionTable::new();
    sessions.on_connect(4, &payload("dora")).unwrap();
    assert_eq!(relay_message(&sessions, 4, b"hey".to_vec()), Ok(line(4, "dora: hey")));
    assert_eq!(relay_message(&sessions, 4, Vec::new()), Ok(line(4, "dora: ")));
}

#[test]
fn relay_message_of_unknown_client_fails() {
    let sessions = SessionTable::new();
    assert_eq!(relay_message(&sessions, 4, b"hey".to_vec()), Err(ChatError::UnknownClient));
}

#[test]
fn relay_message_that_is_not_utf8_fails() {
    let mut sessions = SessionTable::new();
    sessions.on_connect(4, &payload("dora")).unwrap();
    assert_eq!(relay_message(&sessions, 4, vec![0x80]), Err(ChatError::MalformedMessage));
    // malformed wins over unknown
    assert_eq!(relay_message(&sessions, 5, vec![0x80]), Err(ChatError::MalformedMessage));
}

#[test]
fn outgoing_clone_is_equal() {
    let l = line(3, "text");
    assert_eq!(l.clone(), l);
}

#[test]
fn chat_from_connect_to_disconnect() {
    let mut relay = Relay::new();

    // X connects as alice: announced to nobody, for nobody else is there.
    assert_eq!(join(&mut relay, 10, payload("alice")), Some(line(10, "User \"alice\" connected")));
    let mut x = peer();
    assert_eq!(heard(&mut relay, 10, &mut x), Vec::<String>::new());

    // Y connects as bob: announced to X only.
    assert_eq!(join(&mut relay, 20, payload("bob")), Some(line(20, "User \"bob\" connected")));
    let mut y = peer();
    assert_eq!(heard(&mut relay, 10, &mut x), vec!["User \"bob\" connected"]);
    assert_eq!(heard(&mut relay, 20, &mut y), Vec::<String>::new());

    // X says hello: Y receives it under alice's name, X nothing.
    say(&mut relay, 10, &mut x, b"hello");
    assert_eq!(relay.relay_waiting(), vec![line(10, "alice: hello")]);
    assert_eq!(heard(&mut relay, 20, &mut y), vec!["alice: hello"]);
    assert_eq!(heard(&mut relay, 10, &mut x), Vec::<String>::new());

    // Y disconnects: announced to X only.
    assert_eq!(leave(&mut relay, 20), Some(line(20, "User \"bob\" disconnected")));
    assert_eq!(heard(&mut relay, 10, &mut x), vec!["User \"bob\" disconnected"]);
    assert_eq!(relay.sessions.len(), 1);
    assert!(relay.sessions.contains(10));
}

#[test]
fn sessions_follow_the_lifecycle_events() {
    let mut relay = Relay::new();
    let events = [
        Lifecycle::Connected(1),
        Lifecycle::Connected(2),
        Lifecycle::Disconnected(1),
        Lifecycle::Connected(3),
        Lifecycle::Disconnected(4),
        Lifecycle::Connected(1),
        Lifecycle::Disconnected(3),
    ];
    let mut live: Vec<u64> = Vec::new();
    for event in events {
        match event {
            Lifecycle::Connected(id) => {
                relay.handle_event(event, Some(payload(&format!("user{}", id))));
                if !live.contains(&id) {
                    live.push(id);
                }
            }
            Lifecycle::Disconnected(id) => {
                relay.handle_event(event, None);
                live.retain(|other| *other != id);
            }
        }
        for id in 0..6u64 {
            assert_eq!(relay.sessions.contains(id), live.contains(&id));
        }
        assert_eq!(relay.sessions.len(), live.len());
    }
    assert_eq!(live, vec![2, 1]);
    assert_eq!(relay.sessions.lookup(1), Ok(&"user1".to_string()));
}

#[test]
fn a_broken_name_breaks_the_match_of_sessions_and_connections() {
    let mut relay = Relay::new();
    assert_eq!(join(&mut relay, 1, broken_payload()), None);
    assert_eq!(relay.server.clients_id(), vec![ClientId::from_raw(1)]);
    assert_eq!(relay.sessions.len(), 0);
}

#[test]
fn a_full_channel_drops_its_client_and_spares_the_others() {
    let mut relay = Relay::new();
    join(&mut relay, 1, payload("A"));
    join(&mut relay, 2, payload("B"));
    join(&mut relay, 3, payload("C"));
    let mut c = peer();
    heard(&mut relay, 3, &mut c);

    // Each channel holds five mebibytes of unacknowledged messages. A holds
    // two announcements already, B one. Fill A to the brim; B keeps a little room.
    let capacity = 5 * 1024 * 1024;
    let announcement = "User \"C\" connected".len();
    let mebibyte = "x".repeat(1024 * 1024);
    for _ in 0..4 {
        relay.broadcast(&line(3, &mebibyte));
    }
    let rest = "x".repeat(capacity - 4 * 1024 * 1024 - 2 * announcement);
    relay.broadcast(&line(3, &rest));
    assert!(relay.server.is_connected(ClientId::from_raw(1)));
    assert!(relay.server.is_connected(ClientId::from_raw(2)));

    // One more line is too much for B, is not meant for A, and reaches C.
    let last = "this line is one too many";
    assert!(last.len() > announcement);
    relay.broadcast(&line(1, last));
    assert!(relay.server.is_connected(ClientId::from_raw(1)));
    assert!(!relay.server.is_connected(ClientId::from_raw(2)));
    assert!(relay.server.is_connected(ClientId::from_raw(3)));
    assert_eq!(heard(&mut relay, 3, &mut c), vec![last]);

    let mut connected = relay.server.clients_id();
    connected.sort();
    assert_eq!(connected, vec![ClientId::from_raw(1), ClientId::from_raw(3)]);

    // The relay goes on without B.
    relay.broadcast(&line(1, "still here"));
    assert_eq!(heard(&mut relay, 3, &mut c), vec!["still here"]);
}
