//! One client connection: its identifier and its protocol state.

use super::event::{Event, Outcome, PollOpt, Ready, Registration, Token};
use super::state;
use super::state::StateView;
use super::utils::assert_event_readiness;
use super::window::{advance, chunk};
use vstd::prelude::*;

verus! {

/// The state of a connection without its buffers.
#[derive(Clone, Copy, Debug, PartialEq, Eq, Structural)]
pub enum State {
    Reading,
    Writing,
    Closed,
}

/// What a `Connection` stands for.
pub ghost struct ConnectionView {
    pub token: Token,
    pub state: StateView,
}

#[derive(Debug)]
pub struct Connection {
    pub token: Token,
    pub state: state::State,
}

impl View for Connection {
    type V = ConnectionView;

    open spec fn view(&self) -> ConnectionView {
        ConnectionView { token: self.token, state: self.state@ }
    }
}

impl Connection {
    /// The state is one that a connection can rest in between two events.
    pub open spec fn wf(&self) -> bool {
        self.state@.wf()
    }

    /// The readiness that the connection waits for.
    pub open spec fn awaited(&self) -> Ready {
        self.state@.event_set()
    }

    /// A connection that has received nothing yet.
    pub fn new(token: Token) -> (c: Connection)
        ensures
            c@ == (ConnectionView {
                token,
                state: StateView::Reading { buffered: Seq::empty() },
            }),
            c.wf(),
    {
        Connection { token, state: state::State::Reading(Vec::new()) }
    }

    /// The first registration of the connection's socket: readable,
    /// edge-triggered, one-shot.
    pub fn register_into(&self) -> (r: Registration)
        ensures
            r == (Registration {
                token: self.token,
                interest: Ready { readable: true, writable: false },
                opts: PollOpt { edge: true, oneshot: true },
            }),
    {
        Registration {
            token: self.token,
            interest: Ready::readable(),
            opts: PollOpt::edge_oneshot(),
        }
    }

    /// Takes one event and the outcome of the socket call made for it, moves
    /// the state on, and says how the socket is to be armed again: for the
    /// interest of the new state, or not at all once closed.
    pub fn handle_event(&mut self, event: Event, io: Outcome) -> (rearm: Option<Registration>)
        requires
            old(self).wf(),
            old(self).state@.accepts(io@),
            event.readiness.contains(old(self).awaited()),
        ensures
            final(self)@ == (ConnectionView {
                token: old(self).token,
                state: old(self).state@.step(io@),
            }),
            final(self).wf(),
            rearm == final(self).rearm(),
    {
        match self.state {
            state::State::Reading(..) => {
                assert_event_readiness(event, Ready::readable());
                self.read(io)
            },
            _ => {
                assert_event_readiness(event, Ready::writable());
                self.write(io)
            },
        }
    }

    /// Takes the outcome of a read. No bytes close the connection; some are
    /// appended to the buffer, which is then scanned for a frame.
    pub fn read(&mut self, io: Outcome) -> (rearm: Option<Registration>)
        requires
            old(self).wf(),
            old(self).state@ is Reading,
            old(self).state@.accepts(io@),
        ensures
            final(self)@ == (ConnectionView {
                token: old(self).token,
                state: old(self).state@.step(io@),
            }),
            final(self).wf(),
            rearm == final(self).rearm(),
    {
        match io {
            Outcome::Read(mut data) => {
                if data.len() == 0 {
                    self.state = state::State::Closed;
                } else {
                    self.state.mut_read_buf().append(&mut data);
                    self.state.try_transition_to_writing();
                }
            },
            Outcome::WouldBlock => {},
            _ => {
                self.state = state::State::Closed;
            },
        }
        proof {
            old(self).state@.lemma_step_keeps_wf(io@);
        }
        self.reregister()
    }

    /// Takes the outcome of a write. The window moves on by what was taken;
    /// once it is drained the connection reads again, or writes the next
    /// frame if one is buffered already.
    pub fn write(&mut self, io: Outcome) -> (rearm: Option<Registration>)
        requires
            old(self).wf(),
            old(self).state@ is Writing,
            old(self).state@.accepts(io@),
        ensures
            final(self)@ == (ConnectionView {
                token: old(self).token,
                state: old(self).state@.step(io@),
            }),
            final(self).wf(),
            rearm == final(self).rearm(),
    {
        match io {
            Outcome::Wrote(n) => {
                advance(self.state.mut_write_buf(), n);
                self.state.try_transition_to_reading();
            },
            Outcome::WouldBlock => {},
            _ => {
                self.state = state::State::Closed;
            },
        }
        proof {
            old(self).state@.lemma_step_keeps_wf(io@);
        }
        self.reregister()
    }

    /// The registration that arms the socket for the current state, if the
    /// state waits for anything.
    pub open spec fn rearm(&self) -> Option<Registration> {
        if self.state@ is Closed {
            None
        } else {
            Some(
                Registration {
                    token: self.token,
                    interest: self.awaited(),
                    opts: PollOpt { edge: true, oneshot: true },
                },
            )
        }
    }

    /// How the socket is to be armed now: one-shot, edge-triggered, for the
    /// interest of the current state; not at all once closed.
    pub fn reregister(&self) -> (r: Option<Registration>)
        ensures
            r == self.rearm(),
    {
        if self.is_closed() {
            None
        } else {
            Some(
                Registration {
                    token: self.token,
                    interest: self.state.event_set(),
                    opts: PollOpt::edge_oneshot(),
                },
            )
        }
    }

    pub fn is_closed(&self) -> (b: bool)
        ensures
            b == (self.state@ is Closed),
    {
        match self.state {
            state::State::Closed => true,
            _ => false,
        }
    }

    pub fn is_reading(&self) -> (b: bool)
        ensures
            b == (self.state@ is Reading),
    {
        match self.state {
            state::State::Reading(..) => true,
            _ => false,
        }
    }

    /// The state without its buffers.
    pub fn phase(&self) -> (s: State)
        ensures
            s == match self.state@ {
                StateView::Reading { .. } => State::Reading,
                StateView::Writing { .. } => State::Writing,
                StateView::Closed => State::Closed,
            },
    {
        match self.state {
            state::State::Reading(..) => State::Reading,
            state::State::Writing(..) => State::Writing,
            state::State::Closed => State::Closed,
        }
    }

    /// Whether the connection waits for a delimiter with more than `limit`
    /// bytes buffered. The state machine sets no bound on the length of a
    /// frame; a caller that wants one asks this after a read and closes the
    /// connection when the answer is yes.
    pub fn exceeds(&self, limit: usize) -> (over: bool)
        ensures
            over == (self.state@ is Reading && self.state@.pending().len() > limit),
    {
        match &self.state {
            state::State::Reading(buf) => buf.len() > limit,
            _ => false,
        }
    }

    /// The bytes to offer to the socket's next write: what is left of the
    /// frame being sent. Empty unless the connection is writing.
    pub fn outgoing(&self) -> (bytes: Vec<u8>)
        ensures
            bytes@ == self.state@.outgoing(),
    {
        match &self.state {
            state::State::Writing(w) => slice_to_vec(chunk(w)),
            _ => Vec::new(),
        }
    }
}

/// Copies a slice into a vector.
fn slice_to_vec(bytes: &[u8]) -> (v: Vec<u8>)
    ensures
        v@ == bytes@,
{
    let mut v: Vec<u8> = Vec::new();
    let mut i: usize = 0;
    while i < bytes.len()
        invariant
            i <= bytes.len(),
            v@ == bytes@.take(i as int),
        decreases bytes.len() - i,
    {
        v.push(bytes[i]);
        assert(v@ =~= bytes@.take(i + 1));
        i += 1;
    }
    assert(bytes@.take(bytes@.len() as int) =~= bytes@);
    v
}

} // verus!
