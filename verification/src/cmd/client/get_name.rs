//! `CLIENT GETNAME`.

use crate::cmd::hello::nothing_of;
use crate::cmd::parse::{CommandError, Parse};
use crate::cmd::client::info::current_record;
use crate::frame::grammar::FrameView;
use crate::frame::Frame;
use crate::supervisor::{MetadataConnection, MetadataConnectionView, Supervisor};
use crate::text::{string_bytes, text_bytes};
use vstd::prelude::*;

verus! {

/// Asks for the name of the connection as `CLIENT SETNAME` set it; the
/// null bulk stands for a connection without a name.
#[derive(Debug, Default)]
pub struct ClientGetName {}

impl ClientGetName {
    pub fn new() -> (get_name: ClientGetName) {
        ClientGetName {  }
    }

    /// Reads the elements that follow `CLIENT GETNAME`: there are none.
    pub fn parse_frames(parse: &mut Parse) -> (r: Result<ClientGetName, CommandError>)
        ensures
            final(parse).remaining() == old(parse).remaining(),
            match nothing_of(old(parse).remaining()) {
                Ok(_) => r is Ok,
                Err(e) => r is Err && r->Err_0@ == e,
            },
    {
        match parse.finish() {
            Ok(()) => Ok(ClientGetName::new()),
            Err(e) => Err(CommandError::Protocol(e)),
        }
    }
}

/// The answer to `CLIENT GETNAME`: the name of the connection, or the null
/// bulk where it has none.
pub open spec fn get_name_reply(connection: MetadataConnectionView) -> FrameView {
    match connection.name {
        Some(name) => FrameView::Bulk(text_bytes(name)),
        None => FrameView::Null,
    }
}

impl ClientGetName {
    /// Answers the command on the connection that was accepted as `accepted`.
    pub fn apply(self, supervisor: &Supervisor, accepted: &MetadataConnection) -> (reply: Frame)
        ensures
            reply@ == get_name_reply(current_record(supervisor.connections(), accepted@)),
    {
        let name = match supervisor.connection(accepted.id()) {
            Some(record) => record.name(),
            None => accepted.name(),
        };
        match name {
            Some(name) => Frame::Bulk(string_bytes(&name)),
            None => Frame::Null,
        }
    }
}

} // verus!
