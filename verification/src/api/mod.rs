//! What a server is made of.

pub mod auth;

use vstd::hash_map::StringHashMap;
use vstd::prelude::*;

verus! {

/// Under this name the user is found in the metadata of a client.
pub const METADATA_USER: &'static str = "user";

/// Where a connection stands.
#[derive(Debug, Clone, Copy, PartialEq, Eq)]
pub enum PgWireConnectionState {
    AwaitingStartup,
    AuthenticationInProgress,
    ReadyForQuery,
}

/// What the server remembers of a client.
pub struct ClientInfo {
    metadata: StringHashMap<String>,
    state: PgWireConnectionState,
}

/// The value of a [`ClientInfo`].
#[verifier::ext_equal]
pub struct ClientView {
    /// The names and values that the client sent.
    pub metadata: Map<Seq<char>, Seq<char>>,
    /// Where the connection stands.
    pub state: PgWireConnectionState,
}

impl View for ClientInfo {
    type V = ClientView;

    closed spec fn view(&self) -> ClientView {
        ClientView { metadata: self.metadata@.map_values(|s: String| s@), state: self.state }
    }
}

impl ClientInfo {
    /// A client that has sent nothing yet.
    pub fn new() -> (r: Self)
        ensures
            r@ == (ClientView {
                metadata: Map::empty(),
                state: PgWireConnectionState::AwaitingStartup,
            }),
    {
        let r = ClientInfo {
            metadata: StringHashMap::new(),
            state: PgWireConnectionState::AwaitingStartup,
        };
        assert(r@.metadata =~= Map::<Seq<char>, Seq<char>>::empty());
        r
    }

    /// Where the connection stands.
    pub fn state(&self) -> (r: PgWireConnectionState)
        ensures
            r == self@.state,
    {
        self.state
    }

    /// Moves the connection on.
    pub fn set_state(&mut self, new_state: PgWireConnectionState)
        ensures
            final(self)@ == (ClientView { state: new_state, ..old(self)@ }),
    {
        self.state = new_state;
    }

    /// The value that is remembered under `name`.
    pub fn metadata(&self, name: &str) -> (r: Option<&String>)
        ensures
            r is Some <==> self@.metadata.contains_key(name@),
            r matches Some(value) ==> value@ == self@.metadata[name@],
    {
        self.metadata.get(name)
    }

    /// Remembers `value` under `name`, in place of what was there.
    pub fn insert_metadata(&mut self, name: String, value: String)
        ensures
            final(self)@ == (ClientView {
                metadata: old(self)@.metadata.insert(name@, value@),
                ..old(self)@
            }),
    {
        self.metadata.insert(name, value);
        assert(self@.metadata =~= old(self)@.metadata.insert(name@, value@));
    }
}

} // verus!
