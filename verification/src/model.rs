//! The relay as mathematics: what the events of a tick do to the session
//! table, which lines relay which messages, and what broadcasting them does
//! to the queues of the connected clients. The contracts of the relay are
//! stated over these definitions, and the laws of the chat are proved of them.

use vstd::prelude::*;
use vstd::utf8::*;

use crate::codec::decoded;
use crate::error::ChatError;
use crate::session::{lookup_in, registered};
use crate::text::{chat_line, connected_line, disconnected_line, text_of};
use crate::transport::{delivered, Lifecycle, Link};

verus! {

/// A broadcast in the model: `text` goes to every connected client but
/// `except`.
#[verifier::ext_equal]
pub ghost struct Sent {
    /// The client that does not get the text.
    pub except: u64,
    /// The text that is sent.
    pub text: Seq<char>,
}

/// The user data that belongs to an event: that of the client that connected,
/// where the netcode layer holds it.
pub open spec fn payload_for(event: Lifecycle, user_data: Map<u64, Seq<u8>>) -> Option<Seq<u8>> {
    match event {
        Lifecycle::Connected(id) => if user_data.contains_key(id) {
            Some(user_data[id])
        } else {
            None
        },
        Lifecycle::Disconnected(_) => None,
    }
}

/// The session table after one event. A client that connects without user
/// data, or with user data that does not decode, gets no session.
pub open spec fn after_event(
    table: Map<u64, Seq<char>>,
    event: Lifecycle,
    payload: Option<Seq<u8>>,
) -> Map<u64, Seq<char>> {
    match event {
        Lifecycle::Connected(id) => match payload {
            Some(bytes) => registered(table, id, bytes),
            None => table,
        },
        Lifecycle::Disconnected(id) => table.remove(id),
    }
}

/// The announcement that one event causes, if it causes one.
pub open spec fn announcement(
    table: Map<u64, Seq<char>>,
    event: Lifecycle,
    payload: Option<Seq<u8>>,
) -> Option<Sent> {
    match event {
        Lifecycle::Connected(id) => match payload {
            Some(bytes) => match decoded(bytes) {
                Ok(name) => Some(Sent { except: id, text: connected_line(name) }),
                Err(_) => None,
            },
            None => None,
        },
        Lifecycle::Disconnected(id) => if table.contains_key(id) {
            Some(Sent { except: id, text: disconnected_line(table[id]) })
        } else {
            None
        },
    }
}

/// An optional broadcast as a list of none or one.
pub open spec fn announced(sent: Option<Sent>) -> Seq<Sent> {
    match sent {
        Some(s) => seq![s],
        None => seq![],
    }
}

/// The session table after a run of events, oldest first.
pub open spec fn after_events(
    table: Map<u64, Seq<char>>,
    events: Seq<Lifecycle>,
    user_data: Map<u64, Seq<u8>>,
) -> Map<u64, Seq<char>>
    decreases events.len(),
{
    if events.len() == 0 {
        table
    } else {
        after_events(
            after_event(table, events[0], payload_for(events[0], user_data)),
            events.drop_first(),
            user_data,
        )
    }
}

/// The announcements that a run of events causes, in the order of the events.
pub open spec fn announcements(
    table: Map<u64, Seq<char>>,
    events: Seq<Lifecycle>,
    user_data: Map<u64, Seq<u8>>,
) -> Seq<Sent>
    decreases events.len(),
{
    if events.len() == 0 {
        seq![]
    } else {
        let payload = payload_for(events[0], user_data);
        announced(announcement(table, events[0], payload)) + announcements(
            after_event(table, events[0], payload),
            events.drop_first(),
            user_data,
        )
    }
}

/// The line that relays one message of `sender`, or why the message is
/// dropped.
pub open spec fn relayed(table: Map<u64, Seq<char>>, sender: u64, message: Seq<u8>) -> Result<
    Sent,
    ChatError,
> {
    match text_of(message) {
        None => Err(ChatError::MalformedMessage),
        Some(text) => match lookup_in(table, sender) {
            Ok(name) => Ok(Sent { except: sender, text: chat_line(name, text) }),
            Err(e) => Err(e),
        },
    }
}

/// The lines that relay a run of messages of `sender`, oldest first. Messages
/// that cannot be relayed leave no line.
pub open spec fn lines_from(table: Map<u64, Seq<char>>, sender: u64, messages: Seq<Seq<u8>>) -> Seq<
    Sent,
>
    decreases messages.len(),
{
    if messages.len() == 0 {
        seq![]
    } else {
        let earlier = lines_from(table, sender, messages.drop_last());
        match relayed(table, sender, messages.last()) {
            Ok(line) => earlier.push(line),
            Err(_) => earlier,
        }
    }
}

/// The broadcasts among `sent` that except `sender`, in order: in a tick's
/// outgoing queue, the lines that `sender` wrote.
pub open spec fn from_sender(sent: Seq<Sent>, sender: u64) -> Seq<Sent>
    decreases sent.len(),
{
    if sent.len() == 0 {
        seq![]
    } else if sent.last().except == sender {
        from_sender(sent.drop_last(), sender).push(sent.last())
    } else {
        from_sender(sent.drop_last(), sender)
    }
}

/// The messages that a run of broadcasts puts on the queue of client `id`:
/// the UTF-8 bytes of each text that does not except `id`, in order.
pub open spec fn deliveries(sent: Seq<Sent>, id: u64) -> Seq<Seq<u8>>
    decreases sent.len(),
{
    if sent.len() == 0 {
        seq![]
    } else if sent.last().except == id {
        deliveries(sent.drop_last(), id)
    } else {
        deliveries(sent.drop_last(), id).push(encode_utf8(sent.last().text))
    }
}

/// The UTF-8 bytes of each broadcast text, in order.
pub open spec fn wire(sent: Seq<Sent>) -> Seq<Seq<u8>> {
    sent.map_values(|s: Sent| encode_utf8(s.text))
}

/// The messages that wait on the connection of `id`; none when `id` is not
/// connected.
pub open spec fn waiting(links: Map<u64, Link>, id: u64) -> Seq<Seq<u8>> {
    if links.contains_key(id) {
        links[id].received
    } else {
        seq![]
    }
}

/// The links after every message that waited on `id` was received.
pub open spec fn emptied(links: Map<u64, Link>, id: u64) -> Map<u64, Link> {
    if links.contains_key(id) {
        links.insert(id, Link { received: seq![], queued: links[id].queued })
    } else {
        links
    }
}

/// The links after every waiting message of every client was received.
pub open spec fn drained(links: Map<u64, Link>) -> Map<u64, Link> {
    links.map_values(|link: Link| Link { received: seq![], queued: link.queued })
}

/// How a run of broadcasts changes the links: every client that is still
/// connected was connected before, has what it had received, and has the
/// deliveries at the end of its queue.
pub open spec fn carried(before: Map<u64, Link>, after: Map<u64, Link>, sent: Seq<Sent>) -> bool {
    forall|id: u64| #[trigger]
        after.contains_key(id) ==> before.contains_key(id) && after[id] == (Link {
            received: before[id].received,
            queued: before[id].queued + deliveries(sent, id),
        })
}

/// What a whole tick does to the links and which messages it relays.
///
/// A client that is still connected after the tick was connected before it;
/// nothing waits on it any more; every announcement and line of the tick that
/// does not except it is at the end of its queue, in order; and the tick's
/// lines by it relay exactly the messages that waited on it. A client that
/// the transport dropped during the tick either had all its waiting messages
/// relayed, or none.
pub open spec fn ticked(
    before: Map<u64, Link>,
    after: Map<u64, Link>,
    table: Map<u64, Seq<char>>,
    announced: Seq<Sent>,
    lines: Seq<Sent>,
) -> bool {
    &&& forall|id: u64| #[trigger]
        after.contains_key(id) ==> {
            &&& before.contains_key(id)
            &&& after[id] == (Link {
                received: seq![],
                queued: before[id].queued + deliveries(announced + lines, id),
            })
            &&& from_sender(lines, id) == lines_from(table, id, before[id].received)
        }
    &&& forall|id: u64|
        #![trigger from_sender(lines, id)]
        from_sender(lines, id) == lines_from(table, id, waiting(before, id)) || from_sender(
            lines,
            id,
        ) == Seq::<Sent>::empty()
}

/// The clients that are connected after a run of lifecycle events, given
/// those that were connected before it.
pub open spec fn live_after(live: Set<u64>, events: Seq<Lifecycle>) -> Set<u64>
    decreases events.len(),
{
    if events.len() == 0 {
        live
    } else {
        let next = match events[0] {
            Lifecycle::Connected(id) => live.insert(id),
            Lifecycle::Disconnected(id) => live.remove(id),
        };
        live_after(next, events.drop_first())
    }
}

/// Every client that connects in `events` has user data that carries a name.
pub open spec fn names_decode(events: Seq<Lifecycle>, user_data: Map<u64, Seq<u8>>) -> bool {
    forall|i: int|
        0 <= i < events.len() ==> match #[trigger] events[i] {
            Lifecycle::Connected(id) => user_data.contains_key(id) && decoded(user_data[id]) is Ok,
            Lifecycle::Disconnected(_) => true,
        }
}

/// Broadcasting nothing changes nothing.
pub proof fn lemma_carried_nothing(links: Map<u64, Link>)
    ensures
        carried(links, links, seq![]),
{
    assert forall|id: u64| #[trigger] links.contains_key(id) implies links[id] == (Link {
        received: links[id].received,
        queued: links[id].queued + deliveries(seq![], id),
    }) by {}
}

/// One more broadcast at the end of a run.
pub proof fn lemma_carried_push(
    before: Map<u64, Link>,
    middle: Map<u64, Link>,
    after: Map<u64, Link>,
    sent: Seq<Sent>,
    last: Sent,
)
    requires
        carried(before, middle, sent),
        forall|id: u64| #[trigger]
            after.contains_key(id) ==> middle.contains_key(id) && after[id] == delivered(
                middle[id],
                id,
                last.except,
                encode_utf8(last.text),
            ),
    ensures
        carried(before, after, sent.push(last)),
{
    assert(sent.push(last).drop_last() =~= sent);
}

/// The deliveries of a concatenation are the concatenated deliveries.
pub proof fn lemma_deliveries_append(first: Seq<Sent>, second: Seq<Sent>, id: u64)
    ensures
        deliveries(first + second, id) == deliveries(first, id) + deliveries(second, id),
    decreases second.len(),
{
    if second.len() > 0 {
        assert((first + second).drop_last() =~= first + second.drop_last());
        lemma_deliveries_append(first, second.drop_last(), id);
    }
}

/// Broadcasts one after the other act like their concatenation.
pub proof fn lemma_carried_append(
    before: Map<u64, Link>,
    middle: Map<u64, Link>,
    after: Map<u64, Link>,
    first: Seq<Sent>,
    second: Seq<Sent>,
)
    requires
        carried(before, middle, first),
        carried(middle, after, second),
    ensures
        carried(before, after, first + second),
{
    assert forall|id: u64| #[trigger] after.contains_key(id) implies before.contains_key(id)
        && after[id] == (Link {
        received: before[id].received,
        queued: before[id].queued + deliveries(first + second, id),
    }) by {
        lemma_deliveries_append(first, second, id);
        assert(before[id].queued + deliveries(first + second, id) =~= (before[id].queued
            + deliveries(first, id)) + deliveries(second, id));
    }
}

/// The lines by one sender within a concatenation.
pub proof fn lemma_from_sender_append(first: Seq<Sent>, second: Seq<Sent>, sender: u64)
    ensures
        from_sender(first + second, sender) == from_sender(first, sender) + from_sender(
            second,
            sender,
        ),
    decreases second.len(),
{
    if second.len() > 0 {
        assert((first + second).drop_last() =~= first + second.drop_last());
        lemma_from_sender_append(first, second.drop_last(), sender);
    }
}

/// Every line that relays a message of a client is a line by that client.
pub proof fn lemma_lines_are_by_sender(
    table: Map<u64, Seq<char>>,
    sender: u64,
    messages: Seq<Seq<u8>>,
    other: u64,
)
    ensures
        from_sender(lines_from(table, sender, messages), other) == if other == sender {
            lines_from(table, sender, messages)
        } else {
            Seq::<Sent>::empty()
        },
    decreases messages.len(),
{
    if messages.len() > 0 {
        let earlier = lines_from(table, sender, messages.drop_last());
        lemma_lines_are_by_sender(table, sender, messages.drop_last(), other);
        if let Ok(line) = relayed(table, sender, messages.last()) {
            assert(earlier.push(line).drop_last() =~= earlier);
        }
    }
}

/// Lines keep the order of their messages: the lines that relay a run of
/// messages are those of its first part, followed by those of the rest.
pub proof fn lemma_lines_from_append(
    table: Map<u64, Seq<char>>,
    sender: u64,
    first: Seq<Seq<u8>>,
    second: Seq<Seq<u8>>,
)
    ensures
        lines_from(table, sender, first + second) == lines_from(table, sender, first) + lines_from(
            table,
            sender,
            second,
        ),
    decreases second.len(),
{
    if second.len() > 0 {
        assert((first + second).drop_last() =~= first + second.drop_last());
        lemma_lines_from_append(table, sender, first, second.drop_last());
    }
}

/// Broadcast except sender: the lines that relay the messages of a client
/// reach that client not at all, and every other client one by one, in the
/// order of the messages.
pub proof fn lemma_relayed_to_all_but_sender(
    table: Map<u64, Seq<char>>,
    sender: u64,
    messages: Seq<Seq<u8>>,
    recipient: u64,
)
    ensures
        deliveries(lines_from(table, sender, messages), recipient) == if recipient == sender {
            Seq::<Seq<u8>>::empty()
        } else {
            wire(lines_from(table, sender, messages))
        },
    decreases messages.len(),
{
    if messages.len() > 0 {
        let earlier = lines_from(table, sender, messages.drop_last());
        lemma_relayed_to_all_but_sender(table, sender, messages.drop_last(), recipient);
        if let Ok(line) = relayed(table, sender, messages.last()) {
            assert(earlier.push(line).drop_last() =~= earlier);
        }
    }
}

/// Two messages of one client that can both be relayed reach every other
/// client as two lines, the line of the earlier message first.
pub proof fn lemma_two_messages_in_order(
    table: Map<u64, Seq<char>>,
    sender: u64,
    earlier: Seq<u8>,
    later: Seq<u8>,
    recipient: u64,
)
    requires
        recipient != sender,
        relayed(table, sender, earlier) is Ok,
        relayed(table, sender, later) is Ok,
    ensures
        deliveries(lines_from(table, sender, seq![earlier, later]), recipient) == seq![
            encode_utf8(relayed(table, sender, earlier)->Ok_0.text),
            encode_utf8(relayed(table, sender, later)->Ok_0.text),
        ],
{
    let both = seq![earlier, later];
    let one = seq![earlier];
    assert(both.drop_last() =~= one);
    assert(lines_from(table, sender, one.drop_last()) =~= Seq::<Sent>::empty());
    assert(lines_from(table, sender, one) =~= seq![relayed(table, sender, earlier)->Ok_0]);
    lemma_relayed_to_all_but_sender(table, sender, both, recipient);
}

/// The sessions follow the connections: as long as every client connects
/// with user data that carries a name, the clients that hold a session after
/// a run of events are those that have connected and not disconnected since.
pub proof fn lemma_sessions_follow_events(
    table: Map<u64, Seq<char>>,
    events: Seq<Lifecycle>,
    user_data: Map<u64, Seq<u8>>,
)
    requires
        names_decode(events, user_data),
    ensures
        after_events(table, events, user_data).dom() == live_after(table.dom(), events),
    decreases events.len(),
{
    if events.len() > 0 {
        let next = after_event(table, events[0], payload_for(events[0], user_data));
        let rest = events.drop_first();
        assert(names_decode(rest, user_data)) by {
            assert forall|i: int| 0 <= i < rest.len() implies match #[trigger] rest[i] {
                Lifecycle::Connected(id) => user_data.contains_key(id) && decoded(user_data[id])
                    is Ok,
                Lifecycle::Disconnected(_) => true,
            } by {}
        }
        lemma_sessions_follow_events(next, rest, user_data);
    }
}

/// Once the disconnect of a client is worked off, a lookup of that client
/// fails with `UnknownClient`, whatever the table held.
pub proof fn lemma_disconnected_is_unknown(
    table: Map<u64, Seq<char>>,
    id: u64,
    payload: Option<Seq<u8>>,
)
    ensures
        lookup_in(after_event(table, Lifecycle::Disconnected(id), payload), id) == Err::<
            Seq<char>,
            ChatError,
        >(ChatError::UnknownClient),
{
}

/// The disconnect of a client that holds no session changes nothing and
/// announces nothing.
pub proof fn lemma_disconnect_of_stranger(
    table: Map<u64, Seq<char>>,
    id: u64,
    payload: Option<Seq<u8>>,
)
    requires
        !table.contains_key(id),
    ensures
        after_event(table, Lifecycle::Disconnected(id), payload) == table,
        announcement(table, Lifecycle::Disconnected(id), payload) is None,
{
}

} // verus!
