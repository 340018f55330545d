//! The protocol state of one connection, with the buffers each state owns.

use super::event::{Io, Ready};
use super::window::{
    chunk_of, has_remaining, into_parts, open_window, remaining_of, rest_of, window_bytes,
    window_limit, window_position,
};
use bytes::buf::Take;
use std::io::Cursor;
use vstd::prelude::*;

verus! {

/// The byte that ends a frame.
pub const NEWLINE: u8 = 10;

/// `p` is the index of the first delimiter in `s`.
pub open spec fn is_first_newline(s: Seq<u8>, p: int) -> bool {
    &&& 0 <= p < s.len()
    &&& s[p] == NEWLINE
    &&& forall|i: int| 0 <= i < p ==> s[i] != NEWLINE
}

/// No byte of `s` is the delimiter.
pub open spec fn no_newline(s: Seq<u8>) -> bool {
    forall|i: int| 0 <= i < s.len() ==> s[i] != NEWLINE
}

/// The index of the first delimiter in `s`, if `s` holds one.
pub open spec fn first_newline(s: Seq<u8>) -> Option<int> {
    if exists|p: int| is_first_newline(s, p) {
        Some(choose|p: int| is_first_newline(s, p))
    } else {
        None
    }
}

/// A sequence has at most one first delimiter, and `first_newline` names it.
pub proof fn lemma_first_newline_found(s: Seq<u8>, p: int)
    requires
        is_first_newline(s, p),
    ensures
        first_newline(s) == Some(p),
{
    let q = choose|q: int| is_first_newline(s, q);
    assert(is_first_newline(s, q));
    if q < p {
        assert(s[q] != NEWLINE);
    } else if p < q {
        assert(s[p] != NEWLINE);
    }
}

/// A delimiter anywhere in `s` means that `s` has a first one, at or before it.
pub proof fn lemma_first_newline_exists(s: Seq<u8>, k: int)
    requires
        0 <= k < s.len(),
        s[k] == NEWLINE,
    ensures
        first_newline(s) is Some,
        0 <= first_newline(s)->Some_0 <= k,
        is_first_newline(s, first_newline(s)->Some_0),
    decreases k,
{
    if forall|i: int| 0 <= i < k ==> s[i] != NEWLINE {
        assert(is_first_newline(s, k));
        lemma_first_newline_found(s, k);
    } else {
        let j = choose|j: int| 0 <= j < k && s[j] == NEWLINE;
        lemma_first_newline_exists(s, j);
    }
}

/// `first_newline` finds nothing exactly in sequences without a delimiter.
pub proof fn lemma_first_newline_none(s: Seq<u8>)
    ensures
        first_newline(s) is None <==> no_newline(s),
        first_newline(s) is Some ==> is_first_newline(s, first_newline(s)->Some_0),
{
    if first_newline(s) is None {
        assert forall|i: int| 0 <= i < s.len() implies s[i] != NEWLINE by {
            if s[i] == NEWLINE {
                lemma_first_newline_exists(s, i);
            }
        }
    } else {
        let p = first_newline(s)->Some_0;
        assert(is_first_newline(s, p));
    }
}

/// What a `State` stands for: the bytes it holds and, while writing, where
/// the cursor stands and how many bytes the window still lets through.
pub ghost enum StateView {
    Reading { buffered: Seq<u8> },
    Writing { bytes: Seq<u8>, position: nat, limit: nat },
    Closed,
}

impl StateView {
    /// The bytes received from the peer that have not been sent back yet.
    pub open spec fn pending(self) -> Seq<u8> {
        match self {
            StateView::Reading { buffered } => buffered,
            StateView::Writing { bytes, position, limit } => rest_of(bytes, position),
            StateView::Closed => Seq::empty(),
        }
    }

    /// The bytes that the next write offers to the peer: what is left of the
    /// current frame. Empty outside the writing state.
    pub open spec fn outgoing(self) -> Seq<u8> {
        match self {
            StateView::Writing { bytes, position, limit } => chunk_of(bytes, position, limit),
            _ => Seq::empty(),
        }
    }

    /// The state after a scan for a delimiter: a reading state whose buffer
    /// holds one turns into a writing state over the same buffer, limited to
    /// the bytes up to and including the first delimiter. Any other state
    /// stays as it is.
    pub open spec fn to_writing(self) -> StateView {
        match self {
            StateView::Reading { buffered } => match first_newline(buffered) {
                Some(p) => StateView::Writing { bytes: buffered, position: 0, limit: (p + 1) as nat },
                None => self,
            },
            _ => self,
        }
    }

    /// The state after a check for a drained window: a writing state with
    /// nothing left to send turns into a reading state that keeps the bytes
    /// behind the cursor, and is scanned for a delimiter at once. Any other
    /// state stays as it is.
    pub open spec fn to_reading(self) -> StateView {
        match self {
            StateView::Writing { bytes, position, limit } => if remaining_of(bytes, position, limit)
                > 0 {
                self
            } else {
                (StateView::Reading { buffered: rest_of(bytes, position) }).to_writing()
            },
            _ => self,
        }
    }

    /// The outcomes that have a meaning in this state: a reading state takes
    /// the result of a read, a writing state the result of a write that took
    /// no more than was offered, and a closed state takes nothing.
    pub open spec fn accepts(self, io: Io) -> bool {
        match self {
            StateView::Reading { .. } => io is Read || io is WouldBlock || io is Failed,
            StateView::Writing { bytes, position, limit } => match io {
                Io::Wrote(n) => n <= remaining_of(bytes, position, limit),
                Io::WouldBlock | Io::Failed => true,
                _ => false,
            },
            StateView::Closed => false,
        }
    }

    /// The state after one socket call. A failure closes; a call that moved
    /// nothing changes nothing; a read of no bytes closes, a read of some
    /// appends them and scans for a delimiter; a write moves the cursor and
    /// checks whether the window is drained.
    pub open spec fn step(self, io: Io) -> StateView {
        match (self, io) {
            (_, Io::Failed) => StateView::Closed,
            (StateView::Reading { buffered }, Io::Read(data)) => if data.len() == 0 {
                StateView::Closed
            } else {
                (StateView::Reading { buffered: buffered + data }).to_writing()
            },
            (StateView::Writing { bytes, position, limit }, Io::Wrote(n)) => (
            StateView::Writing { bytes, position: position + n, limit: (limit - n) as nat }).to_reading(),
            _ => self,
        }
    }

    /// The bytes that one socket call sent to the peer.
    pub open spec fn emitted(self, io: Io) -> Seq<u8> {
        match io {
            Io::Wrote(n) => self.outgoing().take(n as int),
            _ => Seq::empty(),
        }
    }

    /// The bytes that one socket call received from the peer.
    pub open spec fn absorbed(self, io: Io) -> Seq<u8> {
        match (self, io) {
            (StateView::Reading { .. }, Io::Read(data)) => data,
            _ => Seq::empty(),
        }
    }

    /// What holds of a connection's state between two events: a read buffer
    /// holds no delimiter, and a write window is not empty, lies inside its
    /// buffer and ends with the first delimiter behind the cursor.
    pub open spec fn wf(self) -> bool {
        match self {
            StateView::Reading { buffered } => no_newline(buffered),
            StateView::Writing { bytes, position, limit } => {
                &&& limit > 0
                &&& position + limit <= bytes.len()
                &&& is_first_newline(bytes.skip(position as int), limit - 1)
            },
            StateView::Closed => true,
        }
    }

    /// The interest that matches the state.
    pub open spec fn event_set(self) -> Ready {
        match self {
            StateView::Reading { .. } => Ready { readable: true, writable: false },
            StateView::Writing { .. } => Ready { readable: false, writable: true },
            StateView::Closed => Ready { readable: false, writable: false },
        }
    }
}

/// Protocol state of a connection. `Reading` owns the bytes received and not
/// yet framed; `Writing` owns a window over a buffer whose first bytes are the
/// frame being sent; `Closed` owns nothing.
#[derive(Debug)]
pub enum State {
    Reading(Vec<u8>),
    Writing(Take<Cursor<Vec<u8>>>),
    Closed,
}

impl View for State {
    type V = StateView;

    open spec fn view(&self) -> StateView {
        match *self {
            State::Reading(buf) => StateView::Reading { buffered: buf@ },
            State::Writing(w) => StateView::Writing {
                bytes: window_bytes(w),
                position: window_position(w),
                limit: window_limit(w),
            },
            State::Closed => StateView::Closed,
        }
    }
}

/// Finds the first delimiter in `bytes`.
pub fn find_newline(bytes: &[u8]) -> (found: Option<usize>)
    ensures
        match found {
            Some(p) => p < bytes@.len() && first_newline(bytes@) == Some(p as int),
            None => first_newline(bytes@) is None,
        },
{
    let mut i: usize = 0;
    while i < bytes.len()
        invariant
            i <= bytes.len(),
            forall|j: int| 0 <= j < i ==> bytes@[j] != NEWLINE,
        decreases bytes.len() - i,
    {
        if bytes[i] == NEWLINE {
            proof {
                assert(is_first_newline(bytes@, i as int));
                lemma_first_newline_found(bytes@, i as int);
            }
            return Some(i);
        }
        i += 1;
    }
    proof {
        lemma_first_newline_none(bytes@);
    }
    None
}

impl State {
    /// The read buffer, for the caller to append to.
    pub fn mut_read_buf(&mut self) -> (buf: &mut Vec<u8>)
        requires
            *old(self) is Reading,
        ensures
            *buf == old(self)->Reading_0,
            *final(self) == State::Reading(*final(buf)),
    {
        match self {
            State::Reading(buf) => buf,
            _ => unreached(),
        }
    }

    /// The bytes received and not yet framed.
    pub fn read_buf(&self) -> (buf: &[u8])
        requires
            *self is Reading,
        ensures
            buf@ == self->Reading_0@,
    {
        match self {
            State::Reading(buf) => buf.as_slice(),
            _ => unreached(),
        }
    }

    /// The write window.
    pub fn write_buf(&self) -> (w: &Take<Cursor<Vec<u8>>>)
        requires
            *self is Writing,
        ensures
            *w == self->Writing_0,
    {
        match self {
            State::Writing(w) => w,
            _ => unreached(),
        }
    }

    /// The write window, for the caller to advance.
    pub fn mut_write_buf(&mut self) -> (w: &mut Take<Cursor<Vec<u8>>>)
        requires
            *old(self) is Writing,
        ensures
            *w == old(self)->Writing_0,
            *final(self) == State::Writing(*final(w)),
    {
        match self {
            State::Writing(w) => w,
            _ => unreached(),
        }
    }

    /// Scans the read buffer for a delimiter and, if there is one, starts
    /// writing the frame that it ends.
    pub fn try_transition_to_writing(&mut self)
        requires
            *old(self) is Reading,
        ensures
            final(self)@ == old(self)@.to_writing(),
    {
        if let Some(pos) = find_newline(self.read_buf()) {
            let mut taken = State::Closed;
            std::mem::swap(self, &mut taken);
            let buf = taken.unwrap_read_buf();
            assert(pos < buf.len());
            *self = State::Writing(open_window(buf, pos + 1));
        }
    }

    /// If the window has been sent in full, drops what was sent, goes back to
    /// reading with the bytes that are left, and starts writing again at once
    /// if those hold another frame.
    pub fn try_transition_to_reading(&mut self)
        requires
            *old(self) is Writing,
            old(self).drained() ==> old(self).cursor_in_bounds(),
        ensures
            final(self)@ == old(self)@.to_reading(),
    {
        if !has_remaining(self.write_buf()) {
            let mut taken = State::Closed;
            std::mem::swap(self, &mut taken);
            let (mut buf, pos) = into_parts(taken.unwrap_write_buf());
            assert(pos <= buf.len());
            let rest = buf.split_off(pos as usize);
            assert(rest@ =~= rest_of(old(self)@->Writing_bytes, pos as nat));
            *self = State::Reading(rest);
            self.try_transition_to_writing();
        }
    }

    /// The window has nothing left to send.
    pub open spec fn drained(&self) -> bool {
        match self@ {
            StateView::Writing { bytes, position, limit } => remaining_of(bytes, position, limit)
                <= 0,
            _ => false,
        }
    }

    /// The cursor stands inside the buffer or at its end.
    pub open spec fn cursor_in_bounds(&self) -> bool {
        match self@ {
            StateView::Writing { bytes, position, limit } => position <= bytes.len(),
            _ => true,
        }
    }

    /// The interest to arm for this state: readable while reading, writable
    /// while writing, nothing once closed.
    pub fn event_set(&self) -> (interest: Ready)
        ensures
            interest == self@.event_set(),
    {
        match self {
            State::Reading(..) => Ready::readable(),
            State::Writing(..) => Ready::writable(),
            _ => Ready::empty(),
        }
    }

    /// Gives up the state for its read buffer.
    pub fn unwrap_read_buf(self) -> (buf: Vec<u8>)
        requires
            self is Reading,
        ensures
            buf == self->Reading_0,
    {
        match self {
            State::Reading(buf) => buf,
            _ => unreached(),
        }
    }

    /// Gives up the state for its write window.
    pub fn unwrap_write_buf(self) -> (w: Take<Cursor<Vec<u8>>>)
        requires
            self is Writing,
        ensures
            w == self->Writing_0,
    {
        match self {
            State::Writing(w) => w,
            _ => unreached(),
        }
    }
}

} // verus!
