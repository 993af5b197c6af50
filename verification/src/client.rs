//! The client side of the chat: one tick of the client loop.
//!
//! A tick forwards at most one line of local input to the server and hands
//! back, in the order of their arrival, the lines that the server has sent.
//! Reading the input and showing the lines is left to the caller.

use vstd::prelude::*;
use vstd::utf8::*;

use crate::text::{decode_text, text_of};
use crate::transport::{
    client_has_text_channel, client_online, client_queued, client_received, is_connected,
    open_client, receive, send_text,
};

verus! {

/// The texts that a run of messages spells, oldest first. Messages that are
/// not valid UTF-8 are left out.
pub open spec fn readable(messages: Seq<Seq<u8>>) -> Seq<Seq<char>>
    decreases messages.len(),
{
    if messages.len() == 0 {
        seq![]
    } else {
        let earlier = readable(messages.drop_last());
        match text_of(messages.last()) {
            Some(text) => earlier.push(text),
            None => earlier,
        }
    }
}

/// The text of an optional line of input.
pub open spec fn line_of(input: Option<String>) -> Option<Seq<char>> {
    match input {
        Some(line) => Some(line@),
        None => None,
    }
}

/// The messages that a line of input adds to the queue: its UTF-8 bytes.
pub open spec fn typed(input: Option<Seq<char>>) -> Seq<Seq<u8>> {
    match input {
        Some(line) => seq![encode_utf8(line)],
        None => seq![],
    }
}

/// The texts of a list of strings.
pub open spec fn texts_of(lines: Seq<String>) -> Seq<Seq<char>> {
    lines.map_values(|line: String| line@)
}

/// The chat client: the transport's end of the connection to the server.
pub struct ChatClient {
    /// The connection. The caller lends it to the netcode layer between
    /// ticks, to take in and send out packets.
    pub connection: renet::RenetClient,
}

impl ChatClient {
    /// The connection carries the channel on which text travels.
    pub open spec fn wf(&self) -> bool {
        client_has_text_channel(self.connection)
    }

    /// What one tick does, given the input and the lines it hands back.
    ///
    /// While the connection is not established nothing happens at all. Else
    /// the lines handed back spell the messages that were received, which are
    /// the oldest that waited. If the connection is still established after
    /// the tick, the input is at the end of the queue and no message waits
    /// any more.
    pub open spec fn ticked(
        before: renet::RenetClient,
        after: renet::RenetClient,
        input: Option<Seq<char>>,
        shown: Seq<Seq<char>>,
    ) -> bool {
        if client_online(before) {
            let n = client_received(before).len() - client_received(after).len();
            &&& 0 <= n <= client_received(before).len()
            &&& client_received(after) == client_received(before).skip(n)
            &&& shown == readable(client_received(before).take(n))
            &&& client_online(after) ==> {
                &&& n == client_received(before).len()
                &&& client_queued(after) == client_queued(before) + typed(input)
            }
        } else {
            after == before && shown == Seq::<Seq<char>>::empty()
        }
    }

    /// A client that is not yet connected and has nothing queued.
    pub fn new() -> (r: ChatClient)
        ensures
            r.wf(),
            !client_online(r.connection),
            client_received(r.connection) == Seq::<Seq<u8>>::empty(),
            client_queued(r.connection) == Seq::<Seq<u8>>::empty(),
    {
        ChatClient { connection: open_client() }
    }

    /// One tick of the client: sends `input`, if there is any, and receives
    /// every message that waits. Returns the texts of the received messages,
    /// oldest first, without those that are not valid UTF-8.
    ///
    /// While the connection is not established, the input is dropped and
    /// nothing is received.
    pub fn tick(&mut self, input: Option<String>) -> (shown: Vec<String>)
        requires
            old(self).wf(),
        ensures
            final(self).wf(),
            Self::ticked(
                old(self).connection,
                final(self).connection,
                line_of(input),
                texts_of(shown@),
            ),
    {
        let mut shown: Vec<String> = Vec::new();
        assert(texts_of(shown@) =~= Seq::<Seq<char>>::empty());
        if !is_connected(&self.connection) {
            return shown;
        }
        if let Some(line) = &input {
            send_text(&mut self.connection, line.as_str());
            assert(client_queued(old(self).connection).push(encode_utf8(line@)) =~= client_queued(
                old(self).connection,
            ) + typed(line_of(input)));
        }
        let ghost all = client_received(old(self).connection);
        let ghost sent = self.connection;
        let ghost mut n: int = 0;
        loop
            invariant
                self.wf(),
                all == client_received(old(self).connection),
                0 <= n <= all.len(),
                client_received(self.connection) == all.skip(n),
                client_online(self.connection) == client_online(sent),
                client_queued(self.connection) == client_queued(sent),
                texts_of(shown@) == readable(all.take(n)),
            ensures
                client_online(self.connection) ==> n == all.len(),
            decreases all.len() - n,
        {
            match receive(&mut self.connection) {
                None => {
                    break ;
                },
                Some(message) => {
                    proof {
                        assert(all.skip(n)[0] == message@);
                        assert(all.skip(n).drop_first() =~= all.skip(n + 1));
                        assert(all.take(n + 1).drop_last() =~= all.take(n));
                        n = n + 1;
                    }
                    if let Some(text) = decode_text(message) {
                        shown.push(text);
                    }
                },
            }
        }
        shown
    }
}

} // verus!
