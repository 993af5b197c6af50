//! The server's table of sessions: which username belongs to which client.

use std::collections::HashMap;
use vstd::prelude::*;

use crate::codec::{decoded, Username, USER_DATA_BYTES};
use crate::error::ChatError;

verus! {

broadcast use vstd::std_specs::hash::group_hash_axioms;

/// What a lookup of `id` in `table` yields.
pub open spec fn lookup_in(table: Map<u64, Seq<char>>, id: u64) -> Result<Seq<char>, ChatError> {
    if table.contains_key(id) {
        Ok(table[id])
    } else {
        Err(ChatError::UnknownClient)
    }
}

/// The table after a client connected with `payload` as its user data: the
/// decoded name is registered, or nothing changes when it does not decode.
pub open spec fn registered(table: Map<u64, Seq<char>>, id: u64, payload: Seq<u8>) -> Map<
    u64,
    Seq<char>,
> {
    match decoded(payload) {
        Ok(name) => table.insert(id, name),
        Err(_) => table,
    }
}

/// Usernames of the connected clients, keyed by client identifier.
pub struct SessionTable {
    names: HashMap<u64, String>,
}

impl View for SessionTable {
    type V = Map<u64, Seq<char>>;

    closed spec fn view(&self) -> Map<u64, Seq<char>> {
        self.names@.map_values(|name: String| name@)
    }
}

impl SessionTable {
    /// A table without sessions.
    pub fn new() -> (r: SessionTable)
        ensures
            r@ == Map::<u64, Seq<char>>::empty(),
    {
        SessionTable { names: HashMap::new() }
    }

    /// Registers the client under the name that its user data carries, and
    /// returns that name. A session already held by `id` is replaced.
    ///
    /// When the user data does not decode, the table is left as it was and
    /// the decoding error is returned.
    pub fn on_connect(&mut self, id: u64, payload: &[u8; USER_DATA_BYTES]) -> (r: Result<
        String,
        ChatError,
    >)
        ensures
            final(self)@ == registered(old(self)@, id, payload@),
            match decoded(payload@) {
                Ok(name) => r matches Ok(s) && s@ == name,
                Err(e) => r == Err::<String, ChatError>(e),
            },
    {
        match Username::from_user_data(payload) {
            Ok(username) => {
                let name = username.0;
                self.names.insert(id, name.clone());
                Ok(name)
            },
            Err(e) => Err(e),
        }
    }

    /// Forgets the session of `id` and returns its username; `None`, and no
    /// change, when `id` holds no session.
    pub fn on_disconnect(&mut self, id: u64) -> (r: Option<String>)
        ensures
            final(self)@ == old(self)@.remove(id),
            match r {
                Some(name) => old(self)@.contains_key(id) && name@ == old(self)@[id],
                None => !old(self)@.contains_key(id) && final(self)@ == old(self)@,
            },
    {
        self.names.remove(&id)
    }

    /// The username of `id`; `UnknownClient` when `id` holds no session.
    pub fn lookup(&self, id: u64) -> (r: Result<&String, ChatError>)
        ensures
            match lookup_in(self@, id) {
                Ok(name) => r matches Ok(s) && s@ == name,
                Err(e) => r == Err::<&String, ChatError>(e),
            },
    {
        match self.names.get(&id) {
            Some(name) => Ok(name),
            None => Err(ChatError::UnknownClient),
        }
    }

    /// Whether `id` holds a session.
    pub fn contains(&self, id: u64) -> (r: bool)
        ensures
            r == self@.contains_key(id),
    {
        self.names.contains_key(&id)
    }

    /// The number of sessions.
    pub fn len(&self) -> (r: usize)
        ensures
            r == self@.len(),
    {
        assert(self@.dom() =~= self.names@.dom());
        self.names.len()
    }
}

} // verus!
