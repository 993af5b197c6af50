//! The server side of the chat: one tick of the relay.
//!
//! A tick first works off the connection events that the transport has
//! gathered, registering and announcing the clients that came and went. It then
//! takes every message that waits on a connected client, turns it into a line
//! under the sender's name, and broadcasts each line to everyone but its sender.

use vstd::prelude::*;

use crate::codec::USER_DATA_BYTES;
use crate::error::ChatError;
use crate::model::{
    after_event, after_events, announced, announcement, announcements, carried, deliveries,
    drained, emptied, from_sender, lemma_carried_append, lemma_carried_nothing, lemma_carried_push,
    lemma_deliveries_append, lemma_from_sender_append, lemma_lines_are_by_sender,
    lemma_sessions_follow_events, lines_from, live_after, names_decode, relayed, ticked, waiting,
    Sent,
};
use crate::session::SessionTable;
use crate::text::{decode_text, format_chat_line, format_connected, format_disconnected};
use crate::transport::{
    broadcast_except, connected_clients, has_text_channel, links, next_event, open_server,
    pending_events, receive_from, user_data, user_data_held, Lifecycle, Link,
};

verus! {

/// A line to broadcast to every connected client but `except`.
#[derive(Debug, PartialEq, Eq)]
pub struct Outgoing {
    /// The client that does not get the line: the sender of a chat line, or
    /// the client that an announcement is about.
    pub except: u64,
    /// The line itself.
    pub text: String,
}

impl Clone for Outgoing {
    fn clone(&self) -> (r: Self)
        ensures
            r@ == self@,
    {
        Outgoing { except: self.except, text: self.text.clone() }
    }
}

impl View for Outgoing {
    type V = Sent;

    open spec fn view(&self) -> Sent {
        Sent { except: self.except, text: self.text@ }
    }
}

/// The broadcasts that a list of lines stands for.
pub open spec fn sent_of(lines: Seq<Outgoing>) -> Seq<Sent> {
    lines.map_values(|line: Outgoing| line@)
}

/// The bytes of an optional payload.
pub open spec fn bytes_of(payload: Option<[u8; USER_DATA_BYTES]>) -> Option<Seq<u8>> {
    match payload {
        Some(bytes) => Some(bytes@),
        None => None,
    }
}

/// The broadcast that an optional line stands for.
pub open spec fn sent_by(line: Option<Outgoing>) -> Option<Sent> {
    match line {
        Some(l) => Some(l@),
        None => None,
    }
}

/// Turns one message of `sender` into the line that relays it.
///
/// Fails with `MalformedMessage` when the message is not valid UTF-8, else
/// with `UnknownClient` when `sender` holds no session.
pub fn relay_message(sessions: &SessionTable, sender: u64, message: Vec<u8>) -> (r: Result<
    Outgoing,
    ChatError,
>)
    ensures
        match relayed(sessions@, sender, message@) {
            Ok(sent) => r matches Ok(line) && line@ == sent,
            Err(e) => r == Err::<Outgoing, ChatError>(e),
        },
{
    match decode_text(message) {
        None => Err(ChatError::MalformedMessage),
        Some(text) => match sessions.lookup(sender) {
            Ok(name) => Ok(
                Outgoing { except: sender, text: format_chat_line(name.as_str(), text.as_str()) },
            ),
            Err(e) => Err(e),
        },
    }
}

/// What one tick of the relay did.
#[derive(Debug)]
pub struct TickReport {
    /// The announcements that were broadcast, in the order of their events.
    pub announcements: Vec<Outgoing>,
    /// The chat lines that were broadcast, in the order in which their
    /// messages were received.
    pub lines: Vec<Outgoing>,
}

/// The relay: the transport's server and the table of sessions.
pub struct Relay {
    /// The transport's server. The caller lends it to the netcode layer
    /// between ticks, to take in and send out packets.
    pub server: renet::RenetServer,
    /// The usernames of the clients that have connected with a name.
    pub sessions: SessionTable,
}

impl Relay {
    /// The server's connections carry the channel on which text travels.
    pub open spec fn wf(&self) -> bool {
        has_text_channel(self.server)
    }

    /// A relay with no client, no session and no pending event.
    pub fn new() -> (r: Relay)
        ensures
            r.wf(),
            r.sessions@ == Map::<u64, Seq<char>>::empty(),
            pending_events(r.server) == Seq::<Lifecycle>::empty(),
            links(r.server) == Map::<u64, Link>::empty(),
    {
        Relay { server: open_server(), sessions: SessionTable::new() }
    }

    /// Takes every pending lifecycle event off the server, oldest first.
    pub fn take_events(&mut self) -> (r: Vec<Lifecycle>)
        ensures
            r@ == pending_events(old(self).server),
            pending_events(final(self).server).len() == 0,
            links(final(self).server) == links(old(self).server),
            final(self).sessions@ == old(self).sessions@,
            final(self).wf() == old(self).wf(),
    {
        let mut events: Vec<Lifecycle> = Vec::new();
        loop
            invariant
                pending_events(old(self).server) == events@ + pending_events(self.server),
                links(self.server) == links(old(self).server),
                self.sessions@ == old(self).sessions@,
                self.wf() == old(self).wf(),
            ensures
                pending_events(self.server).len() == 0,
            decreases pending_events(self.server).len(),
        {
            match next_event(&mut self.server) {
                Some(event) => {
                    events.push(event);
                },
                None => {
                    break ;
                },
            }
        }
        events
    }

    /// Broadcasts one line to every connected client but the one it excepts.
    pub fn broadcast(&mut self, line: &Outgoing)
        requires
            old(self).wf(),
        ensures
            final(self).wf(),
            final(self).sessions@ == old(self).sessions@,
            pending_events(final(self).server) == pending_events(old(self).server),
            carried(links(old(self).server), links(final(self).server), seq![line@]),
    {
        broadcast_except(&mut self.server, line.except, line.text.as_str());
        proof {
            let before = links(old(self).server);
            lemma_carried_nothing(before);
            lemma_carried_push(before, before, links(self.server), seq![], line@);
        }
    }

    /// Works off one lifecycle event.
    ///
    /// A client that connects is registered under the name that `payload`
    /// carries and announced to the others; without a payload, or with one
    /// that does not decode, it gets no session and no announcement. A client
    /// that disconnects loses its session and is announced as gone, if it had
    /// one.
    pub fn handle_event(&mut self, event: Lifecycle, payload: Option<[u8; USER_DATA_BYTES]>) -> (r:
        Option<Outgoing>)
        requires
            old(self).wf(),
        ensures
            final(self).wf(),
            final(self).sessions@ == after_event(old(self).sessions@, event, bytes_of(payload)),
            sent_by(r) == announcement(old(self).sessions@, event, bytes_of(payload)),
            pending_events(final(self).server) == pending_events(old(self).server),
            carried(links(old(self).server), links(final(self).server), announced(sent_by(r))),
    {
        proof {
            lemma_carried_nothing(links(self.server));
        }
        match event {
            Lifecycle::Connected(id) => match payload {
                Some(bytes) => match self.sessions.on_connect(id, &bytes) {
                    Ok(name) => {
                        let line = Outgoing { except: id, text: format_connected(name.as_str()) };
                        self.broadcast(&line);
                        Some(line)
                    },
                    Err(_) => None,
                },
                None => None,
            },
            Lifecycle::Disconnected(id) => match self.sessions.on_disconnect(id) {
                Some(name) => {
                    let line = Outgoing { except: id, text: format_disconnected(name.as_str()) };
                    self.broadcast(&line);
                    Some(line)
                },
                None => None,
            },
        }
    }

    /// Works off every pending lifecycle event, oldest first, each with the
    /// user data that the netcode layer holds for its client, and returns the
    /// announcements that were broadcast.
    pub fn process_events(&mut self, transport: &renet::transport::NetcodeServerTransport) -> (r:
        Vec<Outgoing>)
        requires
            old(self).wf(),
        ensures
            final(self).wf(),
            pending_events(final(self).server).len() == 0,
            final(self).sessions@ == after_events(
                old(self).sessions@,
                pending_events(old(self).server),
                user_data_held(*transport),
            ),
            sent_of(r@) == announcements(
                old(self).sessions@,
                pending_events(old(self).server),
                user_data_held(*transport),
            ),
            carried(links(old(self).server), links(final(self).server), sent_of(r@)),
    {
        let events = self.take_events();
        let mut out: Vec<Outgoing> = Vec::new();
        let ghost held = user_data_held(*transport);
        let ghost table0 = self.sessions@;
        let mut i: usize = 0;
        proof {
            lemma_carried_nothing(links(self.server));
            assert(events@.skip(0) =~= events@);
        }
        while i < events.len()
            invariant
                0 <= i <= events.len(),
                self.wf(),
                pending_events(self.server).len() == 0,
                held == user_data_held(*transport),
                table0 == old(self).sessions@,
                events@ == pending_events(old(self).server),
                after_events(table0, events@, held) == after_events(
                    self.sessions@,
                    events@.skip(i as int),
                    held,
                ),
                announcements(table0, events@, held) == sent_of(out@) + announcements(
                    self.sessions@,
                    events@.skip(i as int),
                    held,
                ),
                carried(links(old(self).server), links(self.server), sent_of(out@)),
            decreases events.len() - i,
        {
            let event = events[i];
            let payload = match event {
                Lifecycle::Connected(id) => user_data(transport, id),
                Lifecycle::Disconnected(_) => None,
            };
            let ghost middle = links(self.server);
            let ghost sent_before = sent_of(out@);
            assert(events@.skip(i as int).drop_first() =~= events@.skip(i as int + 1));
            let line = self.handle_event(event, payload);
            proof {
                lemma_carried_append(
                    links(old(self).server),
                    middle,
                    links(self.server),
                    sent_before,
                    announced(sent_by(line)),
                );
            }
            if let Some(l) = line {
                out.push(l);
            }
            assert(sent_of(out@) =~= sent_before + announced(sent_by(line)));
            i += 1;
        }
        out
    }

    /// Receives every message that waits on the connection of `sender`, oldest
    /// first, and appends to `out` the line that relays it. A message that is
    /// not valid UTF-8, or whose sender holds no session, is dropped.
    pub fn collect_from(&mut self, sender: u64, out: &mut Vec<Outgoing>)
        requires
            old(self).wf(),
        ensures
            final(self).wf(),
            final(self).sessions@ == old(self).sessions@,
            pending_events(final(self).server) == pending_events(old(self).server),
            links(final(self).server) == emptied(links(old(self).server), sender),
            sent_of(final(out)@) == sent_of(old(out)@) + lines_from(
                old(self).sessions@,
                sender,
                waiting(links(old(self).server), sender),
            ),
    {
        let ghost links0 = links(self.server);
        let ghost all = waiting(links0, sender);
        let ghost table = self.sessions@;
        let ghost mut n: int = 0;
        assert(all.skip(0) =~= all);
        loop
            invariant
                self.wf(),
                self.sessions@ == table,
                pending_events(self.server) == pending_events(old(self).server),
                links0 == links(old(self).server),
                all == waiting(links0, sender),
                0 <= n <= all.len(),
                links0.contains_key(sender) ==> links(self.server) == links0.insert(
                    sender,
                    Link { received: all.skip(n), queued: links0[sender].queued },
                ),
                !links0.contains_key(sender) ==> links(self.server) == links0,
                sent_of(out@) == sent_of(old(out)@) + lines_from(table, sender, all.take(n)),
            ensures
                n == all.len(),
            decreases all.len() - n,
        {
            let ghost sent_before = sent_of(out@);
            match receive_from(&mut self.server, sender) {
                None => {
                    break ;
                },
                Some(message) => {
                    proof {
                        assert(all.skip(n).drop_first() =~= all.skip(n + 1));
                        assert(all.take(n + 1).drop_last() =~= all.take(n));
                        n = n + 1;
                    }
                    if let Ok(line) = relay_message(&self.sessions, sender, message) {
                        out.push(line);
                        assert(sent_of(out@) =~= sent_before.push(line@));
                    }
                },
            }
        }
        assert(links0.contains_key(sender) ==> all.skip(n) =~= Seq::<Seq<u8>>::empty());
    }

    /// Receives every message that waits on a connected client and returns the
    /// lines that relay them. The clients are visited in no particular order;
    /// the lines of each client are in the order of its messages.
    pub fn collect_lines(&mut self) -> (r: Vec<Outgoing>)
        requires
            old(self).wf(),
        ensures
            final(self).wf(),
            final(self).sessions@ == old(self).sessions@,
            pending_events(final(self).server) == pending_events(old(self).server),
            links(final(self).server) == drained(links(old(self).server)),
            forall|sender: u64| #[trigger]
                from_sender(sent_of(r@), sender) == lines_from(
                    old(self).sessions@,
                    sender,
                    waiting(links(old(self).server), sender),
                ),
    {
        let ids = connected_clients(&self.server);
        let mut out: Vec<Outgoing> = Vec::new();
        let ghost links0 = links(self.server);
        let ghost table = self.sessions@;
        let mut i: usize = 0;
        while i < ids.len()
            invariant
                0 <= i <= ids.len(),
                self.wf(),
                self.sessions@ == table,
                table == old(self).sessions@,
                links0 == links(old(self).server),
                pending_events(self.server) == pending_events(old(self).server),
                ids@.no_duplicates(),
                ids@.to_set() == links0.dom(),
                links(self.server).dom() == links0.dom(),
                forall|id: u64| #[trigger]
                    links0.contains_key(id) ==> links(self.server)[id] == if ids@.take(
                        i as int,
                    ).contains(id) {
                        Link { received: seq![], queued: links0[id].queued }
                    } else {
                        links0[id]
                    },
                forall|sender: u64| #[trigger]
                    from_sender(sent_of(out@), sender) == if ids@.take(i as int).contains(sender) {
                        lines_from(table, sender, waiting(links0, sender))
                    } else {
                        Seq::<Sent>::empty()
                    },
            decreases ids.len() - i,
        {
            let id = ids[i];
            let ghost sent_before = sent_of(out@);
            let ghost visited = ids@.take(i as int);
            self.collect_from(id, &mut out);
            proof {
                let next = ids@.take(i as int + 1);
                assert forall|other: u64| next.contains(other) <==> visited.contains(other) || other
                    == id by {
                    assert(next[i as int] == id);
                }
                let fresh = lines_from(table, id, waiting(links0, id));
                assert forall|sender: u64| #[trigger]
                    from_sender(sent_of(out@), sender) == if next.contains(sender) {
                        lines_from(table, sender, waiting(links0, sender))
                    } else {
                        Seq::<Sent>::empty()
                    } by {
                    lemma_from_sender_append(sent_before, fresh, sender);
                    lemma_lines_are_by_sender(table, id, waiting(links0, id), sender);
                }
            }
            i += 1;
        }
        proof {
            assert(ids@.take(i as int) =~= ids@);
            assert forall|id: u64| links0.contains_key(id) <==> ids@.contains(id) by {}
        }
        out
    }

    /// Broadcasts every line, in order, to everyone but its sender.
    pub fn broadcast_all(&mut self, lines: &Vec<Outgoing>)
        requires
            old(self).wf(),
        ensures
            final(self).wf(),
            final(self).sessions@ == old(self).sessions@,
            pending_events(final(self).server) == pending_events(old(self).server),
            carried(links(old(self).server), links(final(self).server), sent_of(lines@)),
    {
        let ghost links0 = links(self.server);
        let mut i: usize = 0;
        proof {
            lemma_carried_nothing(links0);
        }
        while i < lines.len()
            invariant
                0 <= i <= lines.len(),
                self.wf(),
                self.sessions@ == old(self).sessions@,
                pending_events(self.server) == pending_events(old(self).server),
                links0 == links(old(self).server),
                carried(links0, links(self.server), sent_of(lines@.take(i as int))),
            decreases lines.len() - i,
        {
            let ghost middle = links(self.server);
            self.broadcast(&lines[i]);
            proof {
                let done = sent_of(lines@.take(i as int));
                let last = seq![lines@[i as int]@];
                lemma_carried_append(links0, middle, links(self.server), done, last);
                assert(sent_of(lines@.take(i as int + 1)) =~= done + last);
            }
            i += 1;
        }
        assert(lines@.take(i as int) =~= lines@);
    }

    /// Relays what waits: receives every message that waits on a connected
    /// client, and broadcasts the line that relays it to everyone but its
    /// sender. Returns the lines that were broadcast.
    pub fn relay_waiting(&mut self) -> (r: Vec<Outgoing>)
        requires
            old(self).wf(),
        ensures
            final(self).wf(),
            final(self).sessions@ == old(self).sessions@,
            pending_events(final(self).server) == pending_events(old(self).server),
            carried(drained(links(old(self).server)), links(final(self).server), sent_of(r@)),
            forall|sender: u64| #[trigger]
                from_sender(sent_of(r@), sender) == lines_from(
                    old(self).sessions@,
                    sender,
                    waiting(links(old(self).server), sender),
                ),
    {
        let lines = self.collect_lines();
        self.broadcast_all(&lines);
        lines
    }

    /// One tick of the relay: works off the pending lifecycle events, then
    /// relays every message that waits on a connected client to all the
    /// other clients.
    ///
    /// As long as every client connects with user data that carries a name,
    /// the clients that hold a session after the tick are those that were
    /// connected before it or have connected, and have not disconnected since.
    pub fn tick(&mut self, transport: &renet::transport::NetcodeServerTransport) -> (r: TickReport)
        requires
            old(self).wf(),
        ensures
            final(self).wf(),
            pending_events(final(self).server).len() == 0,
            final(self).sessions@ == after_events(
                old(self).sessions@,
                pending_events(old(self).server),
                user_data_held(*transport),
            ),
            sent_of(r.announcements@) == announcements(
                old(self).sessions@,
                pending_events(old(self).server),
                user_data_held(*transport),
            ),
            names_decode(pending_events(old(self).server), user_data_held(*transport))
                ==> final(self).sessions@.dom() == live_after(
                old(self).sessions@.dom(),
                pending_events(old(self).server),
            ),
            ticked(
                links(old(self).server),
                links(final(self).server),
                final(self).sessions@,
                sent_of(r.announcements@),
                sent_of(r.lines@),
            ),
    {
        let ghost links0 = links(self.server);
        let announcements = self.process_events(transport);
        let lines = self.relay_waiting();
        proof {
            let events = pending_events(old(self).server);
            if names_decode(events, user_data_held(*transport)) {
                lemma_sessions_follow_events(old(self).sessions@, events, user_data_held(*transport));
            }
            let first = sent_of(announcements@);
            let second = sent_of(lines@);
            assert forall|id: u64| #[trigger] links(self.server).contains_key(id) implies links(
                self.server,
            )[id].queued == links0[id].queued + deliveries(first + second, id) by {
                lemma_deliveries_append(first, second, id);
                assert(links0[id].queued + deliveries(first + second, id) =~= (links0[id].queued
                    + deliveries(first, id)) + deliveries(second, id));
            }
        }
        TickReport { announcements, lines }
    }
}

} // verus!
