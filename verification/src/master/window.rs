//! The write window: a byte buffer behind a cursor, limited to one frame.
//!
//! The window is a `bytes::buf::Take` around a `std::io::Cursor`. Neither is
//! verified here; this module declares both types, names what a window holds,
//! and wraps each operation the state machine calls with a contract taken
//! from the `bytes` sources.

use bytes::buf::Take;
use bytes::Buf;
use std::io::Cursor;
use vstd::prelude::*;

verus! {

#[verifier::external_type_specification]
#[verifier::external_body]
#[verifier::reject_recursive_types(T)]
pub struct ExCursor<T>(Cursor<T>);

#[verifier::external_type_specification]
#[verifier::external_body]
#[verifier::reject_recursive_types(T)]
pub struct ExTake<T>(Take<T>);

/// The bytes of the vector that the window's cursor owns.
pub uninterp spec fn window_bytes(w: Take<Cursor<Vec<u8>>>) -> Seq<u8>;

/// The position of the window's cursor.
pub uninterp spec fn window_position(w: Take<Cursor<Vec<u8>>>) -> nat;

/// The number of bytes that the window still lets through.
pub uninterp spec fn window_limit(w: Take<Cursor<Vec<u8>>>) -> nat;

/// Index of the first byte that a cursor at `position` has not passed: the
/// position, clamped to the buffer's length.
pub open spec fn start_of(bytes: Seq<u8>, position: nat) -> int {
    if position <= bytes.len() {
        position as int
    } else {
        bytes.len() as int
    }
}

/// How many bytes can still be taken: what lies behind the cursor, cut at
/// `limit`.
pub open spec fn remaining_of(bytes: Seq<u8>, position: nat, limit: nat) -> int {
    let avail = bytes.len() - start_of(bytes, position);
    if avail <= limit {
        avail
    } else {
        limit as int
    }
}

/// The bytes that can still be taken, in order.
pub open spec fn chunk_of(bytes: Seq<u8>, position: nat, limit: nat) -> Seq<u8> {
    bytes.subrange(
        start_of(bytes, position),
        start_of(bytes, position) + remaining_of(bytes, position, limit),
    )
}

/// Every byte from the cursor on, whether inside the limit or beyond it.
pub open spec fn rest_of(bytes: Seq<u8>, position: nat) -> Seq<u8> {
    bytes.skip(start_of(bytes, position))
}

/// How many bytes can still be taken out of the window.
pub open spec fn window_remaining(w: Take<Cursor<Vec<u8>>>) -> int {
    remaining_of(window_bytes(w), window_position(w), window_limit(w))
}

/// The bytes that can still be taken out of the window, in order.
pub open spec fn window_chunk(w: Take<Cursor<Vec<u8>>>) -> Seq<u8> {
    chunk_of(window_bytes(w), window_position(w), window_limit(w))
}

/// `Buf::take` on a fresh cursor over `buf`: the window owns `buf`, its
/// cursor stands at zero and it lets `limit` bytes through.
#[verifier::external_body]
pub(crate) fn open_window(buf: Vec<u8>, limit: usize) -> (w: Take<Cursor<Vec<u8>>>)
    ensures
        window_bytes(w) == buf@,
        window_position(w) == 0,
        window_limit(w) == limit,
{
    Cursor::new(buf).take(limit)
}

/// `Buf::has_remaining`: whether at least one byte can still be taken.
#[verifier::external_body]
pub(crate) fn has_remaining(w: &Take<Cursor<Vec<u8>>>) -> (b: bool)
    ensures
        b == (window_remaining(*w) > 0),
{
    w.has_remaining()
}

/// `Buf::chunk`: the bytes from the cursor on, cut at the limit.
#[verifier::external_body]
pub(crate) fn chunk(w: &Take<Cursor<Vec<u8>>>) -> (s: &[u8])
    ensures
        s@ == window_chunk(*w),
{
    w.chunk()
}

/// `Buf::advance`: moves the cursor forward by `cnt` and lowers the limit by
/// as much. The call panics when `cnt` exceeds the limit or the bytes left
/// behind the cursor, so both are required.
#[verifier::external_body]
pub(crate) fn advance(w: &mut Take<Cursor<Vec<u8>>>, cnt: usize)
    requires
        cnt <= window_remaining(*old(w)),
    ensures
        window_bytes(*final(w)) == window_bytes(*old(w)),
        window_position(*final(w)) == window_position(*old(w)) + cnt,
        window_limit(*final(w)) == window_limit(*old(w)) - cnt,
{
    w.advance(cnt)
}

/// `Take::into_inner`, then the cursor taken apart: the buffer and the
/// position the cursor stood at.
#[verifier::external_body]
pub(crate) fn into_parts(w: Take<Cursor<Vec<u8>>>) -> (parts: (Vec<u8>, u64))
    ensures
        parts.0@ == window_bytes(w),
        parts.1 == window_position(w),
{
    let cursor = w.into_inner();
    let position = cursor.position();
    (cursor.into_inner(), position)
}

} // verus!
