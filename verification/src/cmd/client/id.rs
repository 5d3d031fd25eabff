//! `CLIENT ID`.

use crate::cmd::parse::{CommandError, Parse};
use crate::frame::grammar::FrameView;
use crate::frame::Frame;
use vstd::prelude::*;

verus! {

/// Asks for the id of the connection. An id is never given twice, and a
/// connection that was made later has a greater id.
#[derive(Debug, Default)]
pub struct ClientID {}

impl ClientID {
    /// Creates a `ClientID` command.
    pub fn new() -> (id: ClientID) {
        ClientID {  }
    }

    /// Reads the elements that follow `CLIENT ID`: none is read.
    pub fn parse_frames(parse: &mut Parse) -> (r: Result<ClientID, CommandError>)
        ensures
            r is Ok,
            final(parse).remaining() == old(parse).remaining(),
    {
        Ok(ClientID::new())
    }
}

/// The answer to `CLIENT ID` on the connection with the given id.
pub open spec fn client_id_reply(id: u64) -> FrameView {
    FrameView::Integer(id)
}

impl ClientID {
    /// Answers the command on the connection with the given id.
    pub fn apply(self, id: u64) -> (reply: Frame)
        ensures
            reply@ == client_id_reply(id),
    {
        Frame::Integer(id)
    }
}

} // verus!
