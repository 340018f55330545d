//! Plain values for what the poller reports and what it is asked to watch.

use vstd::prelude::*;

verus! {

/// Identifier under which a socket is known to the poller.
#[derive(Clone, Copy, Debug, PartialEq, Eq, Structural, Hash)]
pub struct Token(pub usize);

/// A set of readiness kinds: readable, writable, both or neither.
#[derive(Clone, Copy, Debug, PartialEq, Eq, Structural)]
pub struct Ready {
    pub readable: bool,
    pub writable: bool,
}

impl Ready {
    /// The empty set.
    pub fn empty() -> (r: Ready)
        ensures
            r == (Ready { readable: false, writable: false }),
    {
        Ready { readable: false, writable: false }
    }

    /// The set holding readable readiness only.
    pub fn readable() -> (r: Ready)
        ensures
            r == (Ready { readable: true, writable: false }),
    {
        Ready { readable: true, writable: false }
    }

    /// The set holding writable readiness only.
    pub fn writable() -> (r: Ready)
        ensures
            r == (Ready { readable: false, writable: true }),
    {
        Ready { readable: false, writable: true }
    }

    /// `self` holds every kind that `other` holds.
    pub open spec fn spec_contains(self, other: Ready) -> bool {
        (other.readable ==> self.readable) && (other.writable ==> self.writable)
    }

    /// Whether `self` holds every kind that `other` holds.
    #[verifier::when_used_as_spec(spec_contains)]
    pub fn contains(self, other: Ready) -> (b: bool)
        ensures
            b == self.spec_contains(other),
    {
        (!other.readable || self.readable) && (!other.writable || self.writable)
    }

    /// Whether the set holds nothing.
    pub fn is_empty(self) -> (b: bool)
        ensures
            b == (!self.readable && !self.writable),
    {
        !self.readable && !self.writable
    }
}

/// How a registration fires: on transitions only (`edge`), and once until it
/// is armed again (`oneshot`).
#[derive(Clone, Copy, Debug, PartialEq, Eq, Structural)]
pub struct PollOpt {
    pub edge: bool,
    pub oneshot: bool,
}

impl PollOpt {
    /// Edge-triggered and persistent.
    pub fn edge() -> (o: PollOpt)
        ensures
            o == (PollOpt { edge: true, oneshot: false }),
    {
        PollOpt { edge: true, oneshot: false }
    }

    /// Edge-triggered and disarmed after it fired once.
    pub fn edge_oneshot() -> (o: PollOpt)
        ensures
            o == (PollOpt { edge: true, oneshot: true }),
    {
        PollOpt { edge: true, oneshot: true }
    }
}

/// One readiness notification: which socket, and what it is ready for.
#[derive(Clone, Copy, Debug, PartialEq, Eq, Structural)]
pub struct Event {
    pub token: Token,
    pub readiness: Ready,
}

impl Event {
    pub fn new(readiness: Ready, token: Token) -> (e: Event)
        ensures
            e == (Event { token, readiness }),
    {
        Event { token, readiness }
    }

    pub fn token(&self) -> (t: Token)
        ensures
            t == self.token,
    {
        self.token
    }

    pub fn readiness(&self) -> (r: Ready)
        ensures
            r == self.readiness,
    {
        self.readiness
    }
}

/// What the poller is to be told about one socket.
#[derive(Clone, Copy, Debug, PartialEq, Eq, Structural)]
pub struct Registration {
    pub token: Token,
    pub interest: Ready,
    pub opts: PollOpt,
}

/// What an `Outcome` stands for: the bytes read as a sequence, the count
/// written as a number.
pub ghost enum Io {
    Accepted,
    Read(Seq<u8>),
    Wrote(nat),
    WouldBlock,
    Failed,
}

/// What the socket call made for an event came to. The caller makes the call
/// that the state asks for and hands the result back as one of these.
#[derive(Debug)]
pub enum Outcome {
    /// The listener handed out a new client socket.
    Accepted,
    /// A read returned these bytes; none at all means the peer has closed.
    Read(Vec<u8>),
    /// A write took this many bytes.
    Wrote(usize),
    /// The socket was not ready after all; nothing moved.
    WouldBlock,
    /// The call failed for good.
    Failed,
}

impl View for Outcome {
    type V = Io;

    open spec fn view(&self) -> Io {
        match *self {
            Outcome::Accepted => Io::Accepted,
            Outcome::Read(data) => Io::Read(data@),
            Outcome::Wrote(n) => Io::Wrote(n as nat),
            Outcome::WouldBlock => Io::WouldBlock,
            Outcome::Failed => Io::Failed,
        }
    }
}

} // verus!
