//! The read side of a connection: taking frames out of the receive buffer.

use crate::frame::grammar::{decode, Wire};
use crate::frame::laws::lemma_decode_is_local;
use crate::frame::{reports, Cursor, Error, Frame};
use vstd::prelude::*;
use vstd::slice::slice_subrange;

verus! {

/// Size of a new receive buffer, and of the room that is made when a
/// buffer runs low on unused room.
pub const BUFFER_SLACK: usize = 4096;

/// A receive buffer with less unused room than this is given more.
pub const BUFFER_LOW: usize = 1024;

/// What a read from the socket means for the connection.
#[derive(Debug, Clone, Copy, PartialEq, Eq, Structural)]
pub enum ReadOutcome {
    /// Bytes came in: look for a frame again.
    Retry,
    /// The peer closed the connection between two frames.
    EndOfStream,
    /// The peer closed the connection in the middle of a frame.
    ResetByPeer,
}

/// What a read of `size` bytes means when the buffer holds `buffered`
/// bytes after it.
pub fn on_read(size: usize, buffered: usize) -> (outcome: ReadOutcome)
    ensures
        outcome == if size > 0 {
            ReadOutcome::Retry
        } else if buffered == 0 {
            ReadOutcome::EndOfStream
        } else {
            ReadOutcome::ResetByPeer
        },
{
    if size > 0 {
        ReadOutcome::Retry
    } else if buffered == 0 {
        ReadOutcome::EndOfStream
    } else {
        ReadOutcome::ResetByPeer
    }
}

/// Tells whether a buffer with `room` unused bytes has to be given more.
pub fn needs_slack(room: usize) -> (low: bool)
    ensures
        low == (room < BUFFER_LOW),
{
    room < BUFFER_LOW
}

/// A frame that was taken out of a receive buffer.
#[derive(Debug)]
pub struct TakenFrame {
    pub frame: Frame,
    /// Number of bytes that the frame took up; they are to be dropped from
    /// the buffer.
    pub len: usize,
}

/// Takes the frame at the front of the receive buffer, if it is all there;
/// the result holds nothing where more bytes have to come first.
pub fn parse_frame(buffer: &[u8]) -> (r: Result<Option<TakenFrame>, Error>)
    ensures
        match decode(buffer@) {
            Wire::Complete { value, len } => r is Ok && r->Ok_0 is Some && r->Ok_0->0.frame@
                == value && r->Ok_0->0.len == len && len <= buffer@.len(),
            Wire::Incomplete => r is Ok && r->Ok_0 is None,
            Wire::Invalid(fault) => r is Err && reports(r->Err_0, fault),
        },
{
    let mut check = Cursor::new(buffer);
    assert(check.unread() =~= buffer@);
    match Frame::check(&mut check) {
        Ok(()) => {
            let len = check.position();
            let taken = slice_subrange(buffer, 0, len);
            let mut cursor = Cursor::new(taken);
            proof {
                lemma_decode_is_local(buffer@);
                assert(cursor.unread() =~= buffer@.take(len as int));
            }
            match Frame::parse(&mut cursor) {
                Ok(frame) => Ok(Some(TakenFrame { frame, len })),
                Err(e) => Err(e),
            }
        },
        Err(Error::Incomplete) => Ok(None),
        Err(e) => Err(e),
    }
}

} // verus!
