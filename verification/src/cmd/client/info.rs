//! `CLIENT INFO`.

use crate::cmd::hello::nothing_of;
use crate::cmd::parse::{CommandError, Parse};
use crate::frame::grammar::FrameView;
use crate::frame::Frame;
use crate::supervisor::{conn_line, MetadataConnection, MetadataConnectionView, Supervisor};
use crate::text::{string_bytes, text_bytes};
use vstd::prelude::*;

verus! {

/// Asks for information about the connection, in the format of `CLIENT LIST`.
#[derive(Debug, Default)]
pub struct ClientInfo {}

impl ClientInfo {
    pub fn new() -> (info: ClientInfo) {
        ClientInfo {  }
    }

    /// Reads the elements that follow `CLIENT INFO`: there are none.
    pub fn parse_frames(parse: &mut Parse) -> (r: Result<ClientInfo, CommandError>)
        ensures
            final(parse).remaining() == old(parse).remaining(),
            match nothing_of(old(parse).remaining()) {
                Ok(_) => r is Ok,
                Err(e) => r is Err && r->Err_0@ == e,
            },
    {
        match parse.finish() {
            Ok(()) => Ok(ClientInfo::new()),
            Err(e) => Err(CommandError::Protocol(e)),
        }
    }
}

/// What is known now of a connection that was accepted as `accepted`: its
/// record in the registry, or what it was accepted with where the
/// registry does not hold it.
pub open spec fn current_record(
    connections: Map<u64, MetadataConnectionView>,
    accepted: MetadataConnectionView,
) -> MetadataConnectionView {
    if connections.contains_key(accepted.id) {
        connections[accepted.id]
    } else {
        accepted
    }
}

/// The answer to `CLIENT INFO`: the line that describes the connection.
pub open spec fn client_info_reply(connection: MetadataConnectionView) -> FrameView {
    FrameView::Simple(text_bytes(conn_line(connection)))
}

impl ClientInfo {
    /// Answers the command on the connection that was accepted as `accepted`.
    pub fn apply(self, supervisor: &Supervisor, accepted: &MetadataConnection) -> (reply: Frame)
        ensures
            reply@ == client_info_reply(current_record(supervisor.connections(), accepted@)),
    {
        let line = match supervisor.connection(accepted.id()) {
            Some(record) => record.format_conn(),
            None => accepted.format_conn(),
        };
        Frame::Simple(string_bytes(&line))
    }
}

} // verus!
