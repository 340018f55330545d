//! What the state machine guarantees about the bytes that pass through it.

use super::event::Io;
use super::state::{
    is_first_newline, lemma_first_newline_found, lemma_first_newline_none, no_newline, StateView,
    NEWLINE,
};
use super::window::{chunk_of, remaining_of, rest_of};
use vstd::prelude::*;

verus! {

impl StateView {
    /// A scan for a delimiter neither adds nor drops a pending byte, and
    /// leaves a state that a connection can rest in.
    pub proof fn lemma_to_writing(self)
        requires
            self is Reading,
        ensures
            self.to_writing().pending() == self.pending(),
            self.to_writing().wf(),
            self.to_writing() is Reading || self.to_writing() is Writing,
    {
        let buffered = self->buffered;
        lemma_first_newline_none(buffered);
        assert(buffered.skip(0) =~= buffered);
    }

    /// Every state that a connection can rest in is followed by one, whatever
    /// the socket call came to.
    pub proof fn lemma_step_keeps_wf(self, io: Io)
        requires
            self.wf(),
            self.accepts(io),
        ensures
            self.step(io).wf(),
    {
        match (self, io) {
            (StateView::Reading { buffered }, Io::Read(data)) => {
                if data.len() > 0 {
                    (StateView::Reading { buffered: buffered + data }).lemma_to_writing();
                }
            },
            (StateView::Writing { bytes, position, limit }, Io::Wrote(n)) => {
                if remaining_of(bytes, position + n, (limit - n) as nat) > 0 {
                    let before = bytes.skip(position as int);
                    let after = bytes.skip((position + n) as int);
                    assert forall|i: int| 0 <= i < limit - n - 1 implies after[i] != NEWLINE by {
                        assert(after[i] == before[i + n]);
                    }
                    assert(after[limit - n - 1] == before[limit - 1]);
                } else {
                    (StateView::Reading { buffered: rest_of(bytes, position + n) }).lemma_to_writing();
                }
            },
            _ => {},
        }
    }

    /// One socket call keeps the byte stream whole: what was pending and what
    /// the call received is what the call sent followed by what is pending
    /// now. Nothing is dropped, doubled, changed or sent out of order while
    /// the connection stays open.
    pub proof fn lemma_step_keeps_stream(self, io: Io)
        requires
            self.wf(),
            self.accepts(io),
            !(self.step(io) is Closed),
        ensures
            self.emitted(io) + self.step(io).pending() == self.pending() + self.absorbed(io),
    {
        match (self, io) {
            (StateView::Reading { buffered }, Io::Read(data)) => {
                (StateView::Reading { buffered: buffered + data }).lemma_to_writing();
                assert(Seq::<u8>::empty() + self.step(io).pending() =~= self.step(io).pending());
            },
            (StateView::Writing { bytes, position, limit }, Io::Wrote(n)) => {
                let next = position + n;
                if remaining_of(bytes, next, (limit - n) as nat) <= 0 {
                    (StateView::Reading { buffered: rest_of(bytes, next) }).lemma_to_writing();
                }
                assert(self.step(io).pending() == rest_of(bytes, next));
                assert(self.outgoing().take(n as int) + rest_of(bytes, next) =~= rest_of(
                    bytes,
                    position,
                ));
                assert(self.pending() + Seq::<u8>::empty() =~= self.pending());
            },
            _ => {
                assert(Seq::<u8>::empty() + self.pending() =~= self.pending());
                assert(self.pending() + Seq::<u8>::empty() =~= self.pending());
            },
        }
    }
}

/// The state that `start` reaches through the socket calls of `trace`, taken
/// in order.
pub open spec fn run(start: StateView, trace: Seq<Io>) -> StateView
    decreases trace.len(),
{
    if trace.len() == 0 {
        start
    } else {
        run(start, trace.drop_last()).step(trace.last())
    }
}

/// Each call of `trace` has a meaning in the state it meets.
pub open spec fn admissible(start: StateView, trace: Seq<Io>) -> bool
    decreases trace.len(),
{
    trace.len() == 0 || (admissible(start, trace.drop_last()) && run(
        start,
        trace.drop_last(),
    ).accepts(trace.last()))
}

/// All bytes sent to the peer over `trace`, in the order they were sent.
pub open spec fn sent(start: StateView, trace: Seq<Io>) -> Seq<u8>
    decreases trace.len(),
{
    if trace.len() == 0 {
        Seq::empty()
    } else {
        sent(start, trace.drop_last()) + run(start, trace.drop_last()).emitted(trace.last())
    }
}

/// All bytes received from the peer over `trace`, in the order they came.
pub open spec fn received(start: StateView, trace: Seq<Io>) -> Seq<u8>
    decreases trace.len(),
{
    if trace.len() == 0 {
        Seq::empty()
    } else {
        received(start, trace.drop_last()) + run(start, trace.drop_last()).absorbed(
            trace.last(),
        )
    }
}

/// The state of a connection that has just been accepted.
pub open spec fn fresh() -> StateView {
    StateView::Reading { buffered: Seq::empty() }
}

/// Whatever a connection goes through, it rests in a well-formed state after
/// every call, and while it is open the bytes it has sent, followed by the
/// bytes it still holds, are the bytes it held at first followed by the
/// bytes it has received.
pub proof fn lemma_run_keeps_stream(start: StateView, trace: Seq<Io>)
    requires
        start.wf(),
        admissible(start, trace),
    ensures
        run(start, trace).wf(),
        !(run(start, trace) is Closed) ==> sent(start, trace) + run(start, trace).pending()
            == start.pending() + received(start, trace),
    decreases trace.len(),
{
    if trace.len() == 0 {
        assert(Seq::<u8>::empty() + start.pending() =~= start.pending());
        assert(start.pending() + Seq::<u8>::empty() =~= start.pending());
    } else {
        let head = trace.drop_last();
        let io = trace.last();
        let before = run(start, head);
        lemma_run_keeps_stream(start, head);
        before.lemma_step_keeps_wf(io);
        if !(before.step(io) is Closed) {
            before.lemma_step_keeps_stream(io);
            assert(sent(start, trace) + before.step(io).pending() =~= sent(start, head) + (
            before.emitted(io) + before.step(io).pending()));
            assert(start.pending() + received(start, trace) =~= (start.pending() + received(
                start,
                head,
            )) + before.absorbed(io));
            assert(sent(start, head) + (before.pending() + before.absorbed(io)) =~= (sent(
                start,
                head,
            ) + before.pending()) + before.absorbed(io));
        }
    }
}

/// Echo, in order and unmodified: at every moment of a connection's life,
/// open or closed, the bytes sent back so far are the first bytes of what
/// the peer has sent, byte for byte. No frame can overtake an earlier one,
/// and nothing is sent that was not received.
pub proof fn lemma_sent_is_prefix_of_received(trace: Seq<Io>)
    requires
        admissible(fresh(), trace),
    ensures
        sent(fresh(), trace).is_prefix_of(received(fresh(), trace)),
    decreases trace.len(),
{
    if trace.len() > 0 {
        let head = trace.drop_last();
        let io = trace.last();
        let before = run(fresh(), head);
        lemma_sent_is_prefix_of_received(head);
        lemma_run_keeps_stream(fresh(), head);
        lemma_run_keeps_stream(fresh(), trace);
        assert(fresh().pending() + received(fresh(), trace) =~= received(fresh(), trace));
        if before.step(io) is Closed {
            assert(before.emitted(io) =~= Seq::<u8>::empty());
            assert(sent(fresh(), trace) =~= sent(fresh(), head));
            assert(received(fresh(), head).is_prefix_of(received(fresh(), trace)));
        } else {
            let rest = before.step(io).pending();
            assert((sent(fresh(), trace) + rest).subrange(0, sent(fresh(), trace).len() as int)
                =~= sent(fresh(), trace));
        }
    }
}

/// Every frame comes back whole: when a connection that started fresh waits
/// for input again, it has sent back everything it received up to and
/// including the last delimiter, and holds what came after.
pub proof fn lemma_frames_echoed_when_reading(trace: Seq<Io>)
    requires
        admissible(fresh(), trace),
        run(fresh(), trace) is Reading,
    ensures
        received(fresh(), trace) == sent(fresh(), trace) + run(fresh(), trace).pending(),
        no_newline(run(fresh(), trace).pending()),
{
    lemma_run_keeps_stream(fresh(), trace);
    assert(fresh().pending() + received(fresh(), trace) =~= received(fresh(), trace));
}

/// While a connection writes, what it offers to the socket is the unsent
/// part of exactly one frame: the first bytes of what is pending, up to and
/// including the first delimiter.
pub proof fn lemma_outgoing_is_one_frame(state: StateView)
    requires
        state.wf(),
        state is Writing,
    ensures
        state.outgoing().len() > 0,
        state.outgoing().is_prefix_of(state.pending()),
        is_first_newline(state.pending(), state.outgoing().len() - 1),
{
    let bytes = state->bytes;
    let position = state->position;
    let limit = state->limit;
    assert(rest_of(bytes, position).subrange(0, limit as int) =~= chunk_of(
        bytes,
        position,
        limit,
    ));
}

/// A frame received by a fresh connection in one read is offered back at
/// once, byte for byte, and once the socket has taken all of it the
/// connection waits for input with nothing buffered.
pub proof fn lemma_single_frame_round_trip(frame: Seq<u8>)
    requires
        is_first_newline(frame, frame.len() - 1),
    ensures
        fresh().step(Io::Read(frame)).outgoing() == frame,
        fresh().step(Io::Read(frame)).step(Io::Wrote(frame.len())) == fresh(),
{
    let p = frame.len() - 1;
    assert(Seq::<u8>::empty() + frame =~= frame);
    lemma_first_newline_found(frame, p);
    let writing = fresh().step(Io::Read(frame));
    assert(writing == StateView::Writing { bytes: frame, position: 0, limit: frame.len() });
    assert(writing.outgoing() =~= frame);
    assert(rest_of(frame, frame.len()) =~= Seq::<u8>::empty());
    lemma_first_newline_none(Seq::<u8>::empty());
}

} // verus!
