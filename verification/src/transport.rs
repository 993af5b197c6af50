//! The boundary to the reliable messaging transport.
//!
//! The transport's server, its client and its netcode layer are opaque here.
//! What the relay needs to know of them is given a name below, and each call
//! into the transport is a small function whose contract states, over those
//! names, what the transport's source shows the call to do. None of these
//! contracts is proved: they are the assumptions on which the relay rests.

use vstd::prelude::*;
use vstd::utf8::*;

use crate::codec::USER_DATA_BYTES;

verus! {

/// `renet::RenetServer`, the transport's server: its connections, their
/// channels and its queue of lifecycle events. Opaque.
#[verifier::external_type_specification]
#[verifier::external_body]
pub struct ExRenetServer(renet::RenetServer);

/// `renet::RenetClient`, one end of a connection with its channels. Opaque.
#[verifier::external_type_specification]
#[verifier::external_body]
pub struct ExRenetClient(renet::RenetClient);

/// `renet::transport::NetcodeServerTransport`, the netcode layer under the
/// server, which holds the user data of each connected client. Opaque.
#[verifier::external_type_specification]
#[verifier::external_body]
pub struct ExNetcodeServerTransport(renet::transport::NetcodeServerTransport);

/// A connection-lifecycle event, as the transport reports it.
#[derive(Clone, Copy, Debug, PartialEq, Eq)]
pub enum Lifecycle {
    /// The client with this identifier has connected.
    Connected(u64),
    /// The client with this identifier has disconnected.
    Disconnected(u64),
}

/// The reliable ordered channel of one connection, oldest message first in
/// both directions.
pub ghost struct Link {
    /// The messages that have arrived and that the connection can hand out
    /// now, in the order in which it will.
    pub received: Seq<Seq<u8>>,
    /// The messages handed over for sending and not yet acknowledged.
    pub queued: Seq<Seq<u8>>,
}

/// No client connected.
pub open spec fn no_links() -> Map<u64, Link> {
    Map::empty()
}

/// The link after `message` was broadcast to everyone but `except`.
pub open spec fn delivered(link: Link, id: u64, except: u64, message: Seq<u8>) -> Link {
    if id == except {
        link
    } else {
        Link { received: link.received, queued: link.queued.push(message) }
    }
}

/// The message that the next receive from `id` hands out, if any.
pub open spec fn oldest(links: Map<u64, Link>, id: u64) -> Option<Seq<u8>> {
    if links.contains_key(id) && links[id].received.len() > 0 {
        Some(links[id].received[0])
    } else {
        None
    }
}

/// The links after one receive from `id`.
pub open spec fn without_oldest(links: Map<u64, Link>, id: u64) -> Map<u64, Link> {
    if links.contains_key(id) && links[id].received.len() > 0 {
        links.insert(
            id,
            Link { received: links[id].received.drop_first(), queued: links[id].queued },
        )
    } else {
        links
    }
}

/// The lifecycle events that the server holds and has not yet handed out,
/// oldest first.
pub uninterp spec fn pending_events(server: renet::RenetServer) -> Seq<Lifecycle>;

/// The links of the clients that the server counts as connected.
pub uninterp spec fn links(server: renet::RenetServer) -> Map<u64, Link>;

/// Whether the server was made with the default channels, so that each of its
/// connections has the reliable ordered channel in both directions.
pub uninterp spec fn has_text_channel(server: renet::RenetServer) -> bool;

/// The user data of the clients that the netcode layer holds as connected.
pub uninterp spec fn user_data_held(transport: renet::transport::NetcodeServerTransport) -> Map<
    u64,
    Seq<u8>,
>;

/// Whether the client's connection to the server is established.
pub uninterp spec fn client_online(client: renet::RenetClient) -> bool;

/// The messages that have arrived on the client's reliable ordered channel
/// and that it can hand out now, in the order in which it will.
pub uninterp spec fn client_received(client: renet::RenetClient) -> Seq<Seq<u8>>;

/// The messages that the client holds for sending on its reliable ordered
/// channel and that are not yet acknowledged, oldest first.
pub uninterp spec fn client_queued(client: renet::RenetClient) -> Seq<Seq<u8>>;

/// Whether the client was made with the default channels.
pub uninterp spec fn client_has_text_channel(client: renet::RenetClient) -> bool;

/// `RenetServer::new` on the default `ConnectionConfig`: a server with the
/// default channels, no connection and no event.
#[verifier::external_body]
pub(crate) fn open_server() -> (r: renet::RenetServer)
    ensures
        has_text_channel(r),
        pending_events(r) == Seq::<Lifecycle>::empty(),
        links(r) == no_links(),
{
    renet::RenetServer::new(renet::ConnectionConfig::default())
}

/// `RenetServer::get_event`: takes the oldest pending event off the server's
/// queue, or reports that the queue is empty. Connections are not touched.
#[verifier::external_body]
pub(crate) fn next_event(server: &mut renet::RenetServer) -> (r: Option<Lifecycle>)
    ensures
        match r {
            Some(event) => pending_events(*old(server)) == seq![event] + pending_events(
                *final(server),
            ),
            None => pending_events(*old(server)).len() == 0 && pending_events(*final(server)).len()
                == 0,
        },
        links(*final(server)) == links(*old(server)),
        has_text_channel(*final(server)) == has_text_channel(*old(server)),
{
    match server.get_event() {
        Some(renet::ServerEvent::ClientConnected { client_id }) => Some(
            Lifecycle::Connected(client_id.raw()),
        ),
        Some(renet::ServerEvent::ClientDisconnected { client_id, .. }) => Some(
            Lifecycle::Disconnected(client_id.raw()),
        ),
        None => None,
    }
}

/// `NetcodeServerTransport::user_data`: the user data with which the client
/// connected, or `None` when the netcode layer holds no such client.
#[verifier::external_body]
pub(crate) fn user_data(transport: &renet::transport::NetcodeServerTransport, id: u64) -> (r:
    Option<[u8; USER_DATA_BYTES]>)
    ensures
        match r {
            Some(payload) => user_data_held(*transport).contains_key(id) && payload@
                == user_data_held(*transport)[id],
            None => !user_data_held(*transport).contains_key(id),
        },
{
    transport.user_data(renet::ClientId::from_raw(id))
}

/// `RenetServer::broadcast_message_except` on the reliable ordered channel,
/// with the UTF-8 bytes of `text` as the message.
///
/// A connection whose channel is full is dropped from the connected ones.
/// Each client that is still connected afterwards was connected before, and
/// has the message at the end of its queue unless it is `except`. Events and
/// received messages are not touched.
#[verifier::external_body]
pub(crate) fn broadcast_except(server: &mut renet::RenetServer, except: u64, text: &str)
    requires
        has_text_channel(*old(server)),
    ensures
        has_text_channel(*final(server)),
        pending_events(*final(server)) == pending_events(*old(server)),
        forall|id: u64| #[trigger]
            links(*final(server)).contains_key(id) ==> links(*old(server)).contains_key(id)
                && links(*final(server))[id] == delivered(
                links(*old(server))[id],
                id,
                except,
                encode_utf8(text@),
            ),
{
    server.broadcast_message_except(
        renet::ClientId::from_raw(except),
        renet::DefaultChannel::ReliableOrdered,
        text.to_owned(),
    )
}

/// `RenetServer::clients_id`: the identifiers of the connected clients, each
/// once, in no particular order.
#[verifier::external_body]
pub(crate) fn connected_clients(server: &renet::RenetServer) -> (ids: Vec<u64>)
    ensures
        ids@.no_duplicates(),
        ids@.to_set() == links(*server).dom(),
{
    server.clients_id().into_iter().map(|id| id.raw()).collect()
}

/// `RenetServer::receive_message` on the reliable ordered channel: hands out
/// the oldest message that waits on the connection of `id`, or `None` when
/// none waits or `id` is not connected. Nothing else changes.
#[verifier::external_body]
pub(crate) fn receive_from(server: &mut renet::RenetServer, id: u64) -> (r: Option<Vec<u8>>)
    requires
        has_text_channel(*old(server)),
    ensures
        has_text_channel(*final(server)),
        pending_events(*final(server)) == pending_events(*old(server)),
        links(*final(server)) == without_oldest(links(*old(server)), id),
        match oldest(links(*old(server)), id) {
            Some(message) => r matches Some(bytes) && bytes@ == message,
            None => r is None,
        },
{
    server.receive_message(
        renet::ClientId::from_raw(id),
        renet::DefaultChannel::ReliableOrdered,
    ).map(|bytes| bytes.to_vec())
}

/// `RenetClient::new` on the default `ConnectionConfig`: a client with the
/// default channels, not yet connected, with empty queues.
#[verifier::external_body]
pub(crate) fn open_client() -> (r: renet::RenetClient)
    ensures
        client_has_text_channel(r),
        !client_online(r),
        client_received(r) == Seq::<Seq<u8>>::empty(),
        client_queued(r) == Seq::<Seq<u8>>::empty(),
{
    renet::RenetClient::new(renet::ConnectionConfig::default())
}

/// `RenetClient::is_connected`.
#[verifier::external_body]
pub(crate) fn is_connected(client: &renet::RenetClient) -> (r: bool)
    ensures
        r == client_online(*client),
{
    client.is_connected()
}

/// `RenetClient::send_message` on the reliable ordered channel, with the UTF-8
/// bytes of `text` as the message.
///
/// When the channel is full the client disconnects instead. A client that is
/// connected afterwards was connected before and has the message at the end
/// of its queue. Received messages are not touched.
#[verifier::external_body]
pub(crate) fn send_text(client: &mut renet::RenetClient, text: &str)
    requires
        client_has_text_channel(*old(client)),
    ensures
        client_has_text_channel(*final(client)),
        client_received(*final(client)) == client_received(*old(client)),
        client_online(*final(client)) ==> client_online(*old(client)) && client_queued(
            *final(client),
        ) == client_queued(*old(client)).push(encode_utf8(text@)),
{
    client.send_message(renet::DefaultChannel::ReliableOrdered, text.as_bytes().to_vec())
}

/// `RenetClient::receive_message` on the reliable ordered channel: hands out
/// the oldest message that waits, if it hands out any. A connected client
/// hands one out whenever one waits. Nothing else changes.
#[verifier::external_body]
pub(crate) fn receive(client: &mut renet::RenetClient) -> (r: Option<Vec<u8>>)
    requires
        client_has_text_channel(*old(client)),
    ensures
        client_has_text_channel(*final(client)),
        client_online(*final(client)) == client_online(*old(client)),
        client_queued(*final(client)) == client_queued(*old(client)),
        match r {
            Some(bytes) => client_received(*old(client)) == seq![bytes@] + client_received(
                *final(client),
            ),
            None => client_received(*final(client)) == client_received(*old(client)),
        },
        client_online(*old(client)) && client_received(*old(client)).len() > 0 ==> r is Some,
{
    client.receive_message(renet::DefaultChannel::ReliableOrdered).map(|bytes| bytes.to_vec())
}

} // verus!
