//! The listener's side: the registry of open connections and the routing of
//! events to them.

use super::connection::Connection;
use super::event::{Event, Outcome, PollOpt, Ready, Registration, Token};
use super::state::StateView;
use super::utils::assert_event_readiness;
use std::collections::HashMap;
use vstd::prelude::*;

verus! {

broadcast use vstd::std_specs::hash::group_hash_axioms;

/// The identifier reserved for the listening socket. No client gets it.
pub const SERVER_TOKEN: usize = 0;

/// The number of connections that a server admits unless told otherwise.
pub const DEFAULT_CAPACITY: usize = 1024;

/// The socket call that the next event for an identifier asks for.
#[derive(Debug)]
pub enum Demand {
    /// Accept one client from the listener.
    Accept,
    /// Read what the client's socket has.
    Read,
    /// Write these bytes, or as many of them as the socket takes.
    Write(Vec<u8>),
    /// No socket is known under the identifier: make no call.
    Nothing,
}

/// What the caller is to do once an event has been handled.
#[derive(Clone, Copy, Debug, PartialEq, Eq, Structural)]
pub enum Reaction {
    /// A client was admitted: keep its socket under the token and arm it.
    Register(Registration),
    /// The connection goes on: arm its socket again.
    Reregister(Registration),
    /// The connection was closed and forgotten: release its socket.
    Close(Token),
    /// The registry is full: release the socket that was just accepted.
    Reject,
    /// Nothing to do.
    Ignore,
    /// The listener failed: stop the loop and report the failure.
    Shutdown,
}

/// The registry of open connections, with the identifiers it has handed
/// out and taken back.
pub struct Server {
    /// The open connections, each under its identifier.
    pub connections: HashMap<usize, Connection>,
    /// The highest identifier handed out so far.
    pub token_counter: usize,
    /// The identifiers that were handed out and have come back, the one that
    /// came back last at the end.
    pub free: Vec<usize>,
    /// The number of connections admitted at a time.
    pub capacity: usize,
}

impl Server {
    /// Every registered connection is open, at rest and filed under its own
    /// identifier. Every identifier from one to the highest handed out is
    /// either in use or free, never both and never twice. The registry holds
    /// no more connections than the capacity allows.
    pub open spec fn wf(&self) -> bool {
        &&& self.connections@.dom().finite()
        &&& self.connections@.len() <= self.capacity
        &&& self.token_counter == self.connections@.len() + self.free@.len()
        &&& forall|k: usize| #[trigger]
            self.connections@.contains_key(k) ==> {
                &&& 1 <= k <= self.token_counter
                &&& self.connections@[k].token == Token(k)
                &&& self.connections@[k].wf()
                &&& !(self.connections@[k].state@ is Closed)
            }
        &&& forall|i: int|
            0 <= i < self.free@.len() ==> 1 <= #[trigger] self.free@[i] <= self.token_counter
                && !self.connections@.contains_key(self.free@[i])
        &&& forall|i: int, j: int|
            0 <= i < j < self.free@.len() ==> #[trigger] self.free@[i] != #[trigger] self.free@[j]
    }

    /// Whether one more client can be admitted: the registry is below its
    /// capacity.
    pub open spec fn has_room(&self) -> bool {
        self.connections@.len() < self.capacity
    }

    /// The identifier that the next client gets: the one that came back
    /// last, or, if none is free, the one after the highest handed out.
    pub open spec fn next_token(&self) -> usize {
        if self.free@.len() > 0 {
            self.free@.last()
        } else {
            (self.token_counter + 1) as usize
        }
    }

    /// A server with an empty registry that admits up to `capacity`
    /// connections at a time.
    pub fn new(capacity: usize) -> (s: Server)
        ensures
            s.wf(),
            s.connections@ == Map::<usize, Connection>::empty(),
            s.token_counter == 0,
            s.free@ == Seq::<usize>::empty(),
            s.capacity == capacity,
    {
        Server { connections: HashMap::new(), token_counter: 0, free: Vec::new(), capacity }
    }

    /// The registration of the listening socket: readable, edge-triggered
    /// and persistent, under the reserved identifier.
    pub fn register_into(&self) -> (r: Registration)
        ensures
            r == (Registration {
                token: Token(SERVER_TOKEN),
                interest: Ready { readable: true, writable: false },
                opts: PollOpt { edge: true, oneshot: false },
            }),
    {
        Registration {
            token: Token(SERVER_TOKEN),
            interest: Ready::readable(),
            opts: PollOpt::edge(),
        }
    }

    /// The outcomes that have a meaning for `event`: for the listener the
    /// result of an accept on a readable listener; for a registered
    /// connection what its state accepts, on an event that carries the
    /// readiness the connection waits for; anything for an unknown
    /// identifier.
    pub open spec fn accepts(&self, event: Event, io: Outcome) -> bool {
        let k = event.token.0;
        if k == SERVER_TOKEN {
            event.readiness.readable && (io is Accepted || io is WouldBlock || io is Failed)
        } else if self.connections@.contains_key(k) {
            self.connections@[k].state@.accepts(io@) && event.readiness.contains(
                self.connections@[k].awaited(),
            )
        } else {
            true
        }
    }

    /// Routes an event: to the accept protocol if it is the listener's, to
    /// the connection it names otherwise.
    pub fn handle_event(&mut self, event: Event, io: Outcome) -> (reaction: Reaction)
        requires
            old(self).wf(),
            old(self).accepts(event, io),
        ensures
            final(self).wf(),
            event.token.0 == SERVER_TOKEN ==> old(self).accepted(io, *final(self), reaction),
            event.token.0 != SERVER_TOKEN ==> old(self).served(event, io, *final(self), reaction),
    {
        if event.token().0 == SERVER_TOKEN {
            self.handle_server_event(event, io)
        } else {
            self.handle_client_event(event, io)
        }
    }

    /// How the accept protocol relates the server before an event of the
    /// listener to the server after it and to the reaction.
    ///
    /// A client is admitted exactly when the accept handed one out and there
    /// is room. It gets a free identifier, or the one after the highest
    /// handed out if none is free; either is positive and names no
    /// registered connection. It starts reading with an empty buffer. The
    /// connections registered before stay as they were. In every other case
    /// the server does not change: the client is rejected if there is no
    /// room, a listener that was not ready is ignored, and a failed listener
    /// shuts the loop down.
    pub open spec fn accepted(&self, io: Outcome, after: Server, reaction: Reaction) -> bool {
        let t = self.next_token();
        &&& after.capacity == self.capacity
        &&& if io is Accepted && self.has_room() {
            &&& if self.free@.len() > 0 {
                after.token_counter == self.token_counter && after.free@
                    == self.free@.drop_last()
            } else {
                after.token_counter == t && after.free@ == self.free@
            }
            &&& t != SERVER_TOKEN
            &&& !self.connections@.contains_key(t)
            &&& after.connections@.dom() == self.connections@.dom().insert(t)
            &&& after.connections@[t]@.token == Token(t)
            &&& after.connections@[t]@.state == (StateView::Reading { buffered: Seq::empty() })
            &&& forall|k: usize| #[trigger]
                self.connections@.contains_key(k) ==> after.connections@[k]
                    == self.connections@[k]
            &&& reaction == Reaction::Register(
                Registration {
                    token: Token(t),
                    interest: Ready { readable: true, writable: false },
                    opts: PollOpt { edge: true, oneshot: true },
                },
            )
        } else {
            &&& after.token_counter == self.token_counter
            &&& after.free@ == self.free@
            &&& after.connections@ == self.connections@
            &&& reaction == match io {
                Outcome::Accepted => Reaction::Reject,
                Outcome::Failed => Reaction::Shutdown,
                _ => Reaction::Ignore,
            }
        }
    }

    /// The accept protocol: at most one client per event.
    pub fn handle_server_event(&mut self, event: Event, io: Outcome) -> (reaction: Reaction)
        requires
            old(self).wf(),
            event.readiness.readable,
            io is Accepted || io is WouldBlock || io is Failed,
        ensures
            final(self).wf(),
            old(self).accepted(io, *final(self), reaction),
    {
        assert_event_readiness(event, Ready::readable());
        match io {
            Outcome::Accepted => {
                if self.connections.len() < self.capacity {
                    let client_token = self.get_next_token();
                    let connection = Connection::new(client_token);
                    let registration = connection.register_into();
                    self.connections.insert(client_token.0, connection);
                    assert(final(self).connections@.dom() =~= old(self).connections@.dom().insert(
                        client_token.0,
                    ));
                    Reaction::Register(registration)
                } else {
                    Reaction::Reject
                }
            },
            Outcome::Failed => Reaction::Shutdown,
            _ => Reaction::Ignore,
        }
    }

    /// Hands out an identifier for a client that is about to be registered:
    /// the free one that came back last, or a new one if none is free.
    pub fn get_next_token(&mut self) -> (t: Token)
        requires
            old(self).wf(),
            old(self).has_room(),
        ensures
            t == Token(old(self).next_token()),
            t.0 != SERVER_TOKEN,
            !old(self).connections@.contains_key(t.0),
            final(self).connections == old(self).connections,
            final(self).capacity == old(self).capacity,
            old(self).free@.len() > 0 ==> final(self).token_counter == old(self).token_counter
                && final(self).free@ == old(self).free@.drop_last(),
            old(self).free@.len() == 0 ==> final(self).token_counter == old(self).token_counter
                + 1 && final(self).free@ == old(self).free@,
    {
        match self.free.pop() {
            Some(token) => Token(token),
            None => {
                self.token_counter += 1;
                Token(self.token_counter)
            },
        }
    }

    /// How an event for a client relates the server before it to the server
    /// after it and to the reaction.
    ///
    /// An event for an identifier that names no connection changes nothing
    /// and is ignored. Otherwise the connection it names takes one step with
    /// the outcome; if that closes it, it leaves the registry and its
    /// identifier becomes free, and if not it stays under its identifier and
    /// is armed for its new state. No other connection is touched, and no
    /// identifier is handed out.
    pub open spec fn served(
        &self,
        event: Event,
        io: Outcome,
        after: Server,
        reaction: Reaction,
    ) -> bool {
        let k = event.token.0;
        &&& after.capacity == self.capacity
        &&& after.token_counter == self.token_counter
        &&& forall|j: usize|
            j != k ==> (#[trigger] after.connections@.contains_key(j)
                <==> self.connections@.contains_key(j))
        &&& forall|j: usize|
            j != k && #[trigger] self.connections@.contains_key(j) ==> after.connections@[j]
                == self.connections@[j]
        &&& if !self.connections@.contains_key(k) {
            &&& after.connections@ == self.connections@
            &&& after.free@ == self.free@
            &&& reaction == Reaction::Ignore
        } else {
            let next = self.connections@[k].state@.step(io@);
            if next is Closed {
                &&& !after.connections@.contains_key(k)
                &&& after.free@ == self.free@.push(k)
                &&& reaction == Reaction::Close(event.token)
            } else {
                &&& after.free@ == self.free@
                &&& after.connections@.contains_key(k)
                &&& after.connections@[k]@.token == event.token
                &&& after.connections@[k]@.state == next
                &&& reaction == Reaction::Reregister(
                    Registration {
                        token: event.token,
                        interest: next.event_set(),
                        opts: PollOpt { edge: true, oneshot: true },
                    },
                )
            }
        }
    }

    /// Forwards an event to the connection it names and forgets the
    /// connection if that closed it.
    pub fn handle_client_event(&mut self, event: Event, io: Outcome) -> (reaction: Reaction)
        requires
            old(self).wf(),
            event.token.0 != SERVER_TOKEN,
            old(self).accepts(event, io),
        ensures
            final(self).wf(),
            old(self).served(event, io, *final(self), reaction),
    {
        let token = event.token();
        match self.connections.remove(&token.0) {
            Some(mut connection) => {
                let rearm = connection.handle_event(event, io);
                match rearm {
                    Some(registration) => {
                        self.connections.insert(token.0, connection);
                        assert(final(self).connections@.dom() =~= old(self).connections@.dom());
                        Reaction::Reregister(registration)
                    },
                    None => {
                        self.free.push(token.0);
                        Reaction::Close(token)
                    },
                }
            },
            None => {
                assert(final(self).connections@ =~= old(self).connections@);
                Reaction::Ignore
            },
        }
    }

    /// Closes the connection under `token` if it waits for a delimiter with
    /// more than `limit` bytes buffered, and forgets it. A frame of any
    /// length is echoed unless the caller sets a bound with this; a caller
    /// that wants one calls it after each read.
    pub fn enforce_limit(&mut self, token: Token, limit: usize) -> (reaction: Reaction)
        requires
            old(self).wf(),
        ensures
            final(self).wf(),
            final(self).capacity == old(self).capacity,
            final(self).token_counter == old(self).token_counter,
            old(self).over_limit(token, limit) ==> final(self).connections@ == old(
                self,
            ).connections@.remove(token.0) && final(self).free@ == old(self).free@.push(token.0)
                && reaction == Reaction::Close(token),
            !old(self).over_limit(token, limit) ==> final(self).connections@ == old(
                self,
            ).connections@ && final(self).free@ == old(self).free@ && reaction
                == Reaction::Ignore,
    {
        let over = match self.connections.get(&token.0) {
            Some(connection) => connection.exceeds(limit),
            None => false,
        };
        if over {
            self.connections.remove(&token.0);
            self.free.push(token.0);
            Reaction::Close(token)
        } else {
            Reaction::Ignore
        }
    }

    /// The connection under `token` waits for a delimiter with more than
    /// `limit` bytes buffered.
    pub open spec fn over_limit(&self, token: Token, limit: usize) -> bool {
        &&& self.connections@.contains_key(token.0)
        &&& self.connections@[token.0].state@ is Reading
        &&& self.connections@[token.0].state@.pending().len() > limit
    }

    /// The socket call to make before the next event for `token` is handed
    /// in.
    pub fn expects(&self, token: Token) -> (demand: Demand)
        requires
            self.wf(),
        ensures
            match demand {
                Demand::Accept => token.0 == SERVER_TOKEN,
                Demand::Read => token.0 != SERVER_TOKEN && self.connections@.contains_key(token.0)
                    && self.connections@[token.0].state@ is Reading,
                Demand::Write(bytes) => token.0 != SERVER_TOKEN && self.connections@.contains_key(
                    token.0,
                ) && self.connections@[token.0].state@ is Writing && bytes@
                    == self.connections@[token.0].state@.outgoing(),
                Demand::Nothing => token.0 != SERVER_TOKEN && !self.connections@.contains_key(
                    token.0,
                ),
            },
    {
        if token.0 == SERVER_TOKEN {
            return Demand::Accept;
        }
        match self.connections.get(&token.0) {
            Some(connection) => {
                if connection.is_reading() {
                    Demand::Read
                } else {
                    Demand::Write(connection.outgoing())
                }
            },
            None => Demand::Nothing,
        }
    }

    /// The number of registered connections.
    pub fn len(&self) -> (n: usize)
        ensures
            n == self.connections@.len(),
    {
        self.connections.len()
    }

    /// The connection registered under `token`, if there is one.
    pub fn connection(&self, token: Token) -> (found: Option<&Connection>)
        ensures
            match found {
                Some(c) => self.connections@.contains_key(token.0) && *c
                    == self.connections@[token.0],
                None => !self.connections@.contains_key(token.0),
            },
    {
        self.connections.get(&token.0)
    }
}

/// An identifier is never handed out twice while it is in use: the
/// identifier that an accept hands out is not the listener's and names no
/// connection that was registered before, and every connection that was
/// registered before is still registered, unchanged, under its own
/// identifier.
pub proof fn lemma_identifier_is_fresh(before: Server, io: Outcome, after: Server, reaction: Reaction)
    requires
        before.wf(),
        before.accepted(io, after, reaction),
        reaction is Register,
    ensures
        reaction->Register_0.token.0 != SERVER_TOKEN,
        !before.connections@.contains_key(reaction->Register_0.token.0),
        after.connections@.contains_key(reaction->Register_0.token.0),
        forall|k: usize| #[trigger]
            before.connections@.contains_key(k) ==> after.connections@.contains_key(k)
                && after.connections@[k] == before.connections@[k],
{
    let t = before.next_token();
    assert(after.connections@.dom().contains(t));
    assert forall|k: usize| #[trigger] before.connections@.contains_key(k) implies after.connections@.contains_key(k) by {
        assert(before.connections@.dom().insert(t).contains(k));
    }
}

/// A client is admitted exactly while the registry is below its capacity:
/// at the capacity the next client is rejected and the server stays as it
/// was.
pub proof fn lemma_capacity_is_exact(before: Server, after: Server, reaction: Reaction)
    requires
        before.wf(),
        before.accepted(Outcome::Accepted, after, reaction),
    ensures
        before.connections@.len() < before.capacity ==> reaction is Register
            && after.connections@.len() == before.connections@.len() + 1,
        before.connections@.len() >= before.capacity ==> reaction == Reaction::Reject
            && after.connections@ == before.connections@,
{
    if before.connections@.len() < before.capacity {
        assert(after.connections@.dom().len() == before.connections@.dom().len() + 1);
    }
}

/// A connection that fails takes no other connection with it: whatever
/// state it was in, it alone leaves the registry, and every other
/// connection stays registered exactly as it was.
pub proof fn lemma_failure_is_contained(before: Server, event: Event, after: Server, reaction: Reaction)
    requires
        before.wf(),
        event.token.0 != SERVER_TOKEN,
        before.connections@.contains_key(event.token.0),
        before.served(event, Outcome::Failed, after, reaction),
    ensures
        reaction == Reaction::Close(event.token),
        after.connections@ == before.connections@.remove(event.token.0),
        after.free@ == before.free@.push(event.token.0),
        forall|j: usize|
            j != event.token.0 && #[trigger] before.connections@.contains_key(j)
                ==> after.connections@.contains_key(j) && after.connections@[j]
                == before.connections@[j],
{
    assert(after.connections@ =~= before.connections@.remove(event.token.0));
}

/// An identifier comes back into use only after its connection has left
/// the registry: the identifier of a connection that closes becomes the
/// next one to hand out, so the client admitted next takes its place.
pub proof fn lemma_closed_identifier_is_next(
    before: Server,
    event: Event,
    io: Outcome,
    after: Server,
    reaction: Reaction,
)
    requires
        before.wf(),
        before.served(event, io, after, reaction),
        reaction is Close,
    ensures
        !after.connections@.contains_key(event.token.0),
        after.next_token() == event.token.0,
{
}

} // verus!
